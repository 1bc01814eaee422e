use soul_lantern::give::builder::GiveVersion;
use soul_lantern::give::catalog::{catalog_miss, map_catalog, namespaced, particle_id_only, GiveCatalogs, Indexed};

#[test]
fn particle_id_only_strips_brace_suffix() {
    assert_eq!(particle_id_only("minecraft:dust{color:[1.0,0.0,0.0],scale:1}"), "minecraft:dust");
    assert_eq!(particle_id_only("minecraft:flame"), "minecraft:flame");
}

#[test]
fn map_catalog_matches_by_id_or_chinese_name() {
    let rows: &[(&str, &str)] = &[("minecraft:stone", "石头")];
    assert_eq!(map_catalog(rows, "minecraft:stone"), "minecraft:stone");
    assert_eq!(map_catalog(rows, "石头"), "minecraft:stone");
    assert_eq!(map_catalog(rows, "some_modded_thing"), "minecraft:some_modded_thing");
    assert_eq!(map_catalog(rows, "mymod:thing"), "mymod:thing");
}

static ROWS: &[(&str, &str)] = &[("minecraft:stone", "石头"), ("minecraft:cobweb", "蜘蛛网")];

#[test]
fn made_up_ids_are_refused_and_blank_fields_are_left_to_other_checks() {
    let cat = Indexed::new(ROWS);
    assert!(catalog_miss("物品", Some("minecraft:cobweb"), &cat).is_none());
    assert!(catalog_miss("物品", Some("蜘蛛网"), &cat).is_none());
    assert!(catalog_miss("物品", Some("stone"), &cat).is_none());
    assert!(catalog_miss("物品", Some(""), &cat).is_none());
    assert!(catalog_miss("物品", Some("   "), &cat).is_none());
    assert!(catalog_miss("物品", None, &cat).is_none());
    assert_eq!(
        catalog_miss("物品", Some("minecraft:totally_fake_item"), &cat),
        Some("物品 \"minecraft:totally_fake_item\" 不在官方目录里，疑似 AI 编造，已拦截".to_string())
    );
}

#[test]
fn namespacing() {
    assert_eq!(namespaced("stone"), "minecraft:stone");
    assert_eq!(namespaced("mymod:x"), "mymod:x");
    assert_eq!(particle_id_only("  minecraft:dust  {x}"), "minecraft:dust");
}

const JAVA_ITEMS: &[(&str, &str)] = &[("minecraft:stone", "石头"), ("minecraft:cobweb", "蜘蛛网")];
const BEDROCK_ITEMS: &[(&str, &str)] = &[("minecraft:stone", "石头"), ("minecraft:web", "蜘蛛网")];
const SHARED: &[(&str, &str)] = &[("minecraft:speed", "迅捷")];

/// A catalog set holding the rows these tests use.
fn cats() -> GiveCatalogs {
    GiveCatalogs {
        items: JAVA_ITEMS,
        blocks: JAVA_ITEMS,
        entities: JAVA_ITEMS,
        bedrock_items: BEDROCK_ITEMS,
        bedrock_blocks: BEDROCK_ITEMS,
        bedrock_entities: BEDROCK_ITEMS,
        enchants: SHARED,
        effects: SHARED,
        attributes: SHARED,
        particles: SHARED,
    }
}

#[test]
fn java_web_is_cobweb_bedrock_web_is_web() {
    let c = cats();
    assert!(catalog_miss("物品", Some("minecraft:cobweb"), &c.items(GiveVersion::Java1_21_11Plus)).is_none());
    assert!(catalog_miss("物品", Some("minecraft:web"), &c.items(GiveVersion::Java1_21_11Plus)).is_some());
    assert!(catalog_miss("物品", Some("minecraft:web"), &c.items(GiveVersion::Bedrock)).is_none());
    assert!(catalog_miss("物品", Some("minecraft:cobweb"), &c.items(GiveVersion::Bedrock)).is_some());
}

#[test]
fn empty_or_missing_field_is_not_a_catalog_miss() {
    let c = cats();
    assert!(catalog_miss("物品", Some(""), &c.items(GiveVersion::Java1_21_11Plus)).is_none());
    assert!(catalog_miss("物品", None, &c.items(GiveVersion::Java1_21_11Plus)).is_none());
}

#[test]
fn made_up_id_is_rejected_with_expected_message() {
    let c = cats();
    let err = catalog_miss("物品", Some("minecraft:totally_fake_item"), &c.items(GiveVersion::Java1_21_11Plus));
    assert_eq!(err, Some("物品 \"minecraft:totally_fake_item\" 不在官方目录里，疑似 AI 编造，已拦截".to_string()));
}

#[test]
fn give_catalogs_pick_tables_by_version() {
    let c = cats();
    assert_eq!(c.items(GiveVersion::Java1_21_5).rows[1].0, "minecraft:cobweb");
    assert_eq!(c.items(GiveVersion::Bedrock).rows[1].0, "minecraft:web");
    assert_eq!(c.blocks(GiveVersion::Bedrock).rows[1].0, "minecraft:web");
    assert_eq!(c.entities(GiveVersion::Java1_20_5).rows[1].0, "minecraft:cobweb");
    assert_eq!(c.entities(GiveVersion::Bedrock).rows[1].0, "minecraft:web");
    assert_eq!(c.enchants().rows.len(), 1);
    assert_eq!(c.effects().rows.len(), 1);
    assert_eq!(c.attributes().rows.len(), 1);
    assert_eq!(c.particles().rows[0].0, "minecraft:speed");
    assert!(catalog_miss("物品", Some("蜘蛛网"), &c.items(GiveVersion::Bedrock)).is_none());
}
