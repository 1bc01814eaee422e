use soul_lantern::give::builder::GiveVersion;
use soul_lantern::give::commands::nbt::{NbtAttribute, NbtEffect, NbtEnchantment, NbtEquipment, NbtItem};
use soul_lantern::give::commands::summon::{build_summon_command, SummonForm, SummonPassenger};
use soul_lantern::give::json::JsonValue;
use soul_lantern::give::number::Decimal;

const MODERN: GiveVersion = GiveVersion::Java1_21_5;
const MID: GiveVersion = GiveVersion::Java1_21_4;

fn base(version: GiveVersion, entity_type: &str) -> SummonForm {
    SummonForm {
        version,
        with_slash: false,
        entity_type: entity_type.to_string(),
        x: None,
        y: None,
        z: None,
        custom_name: None,
        no_ai: false,
        silent: false,
        persistence_required: false,
        invulnerable: false,
        no_gravity: false,
        glowing: false,
        rotation: None,
        health: None,
        tags: Vec::new(),
        attributes: Vec::new(),
        effects: Vec::new(),
        equipment: None,
        passengers: Vec::new(),
        extra_nbt: None,
    }
}

fn obj(pairs: Vec<(&str, JsonValue)>) -> JsonValue {
    JsonValue::Object(pairs.into_iter().map(|(k, v)| (k.to_string(), v)).collect())
}

fn text(s: &str) -> JsonValue {
    JsonValue::String(s.to_string())
}

#[test]
fn basic_no_coords_no_nbt() {
    let f = base(MODERN, "pig");
    assert_eq!(build_summon_command(&f), "summon minecraft:pig");
}

#[test]
fn specific_coords() {
    let mut f = base(MODERN, "pig");
    f.x = Some("0".to_string());
    f.y = Some("64".to_string());
    f.z = Some("0".to_string());
    assert_eq!(build_summon_command(&f), "summon minecraft:pig 0 64 0");
}

#[test]
fn nbt_present_auto_fills_coords() {
    let mut f = base(MODERN, "zombie");
    f.no_ai = true;
    f.silent = true;
    assert_eq!(build_summon_command(&f), "summon minecraft:zombie ~ ~ ~ {NoAI:1b,Silent:1b}");
}

#[test]
fn custom_name_snbt_string() {
    let mut f = base(MODERN, "zombie");
    f.custom_name = Some(vec![obj(vec![("text", text("Boss")), ("color", text("red"))])]);
    assert_eq!(
        build_summon_command(&f),
        r#"summon minecraft:zombie ~ ~ ~ {CustomName:'[{"text":"Boss","color":"red"}]'}"#
    );
}

#[test]
fn tags() {
    let mut f = base(MODERN, "pig");
    f.tags = vec!["a".to_string(), "b".to_string()];
    assert_eq!(build_summon_command(&f), r#"summon minecraft:pig ~ ~ ~ {Tags:["a","b"]}"#);
}

#[test]
fn attributes_121_5_plus() {
    let mut f = base(MODERN, "zombie");
    f.attributes = vec![NbtAttribute { id: "max_health".to_string(), base: Decimal::whole(40) }];
    assert_eq!(
        build_summon_command(&f),
        r#"summon minecraft:zombie ~ ~ ~ {attributes:[{id:"minecraft:max_health",base:40d}]}"#
    );
}

#[test]
fn attributes_1214() {
    let mut f = base(MID, "zombie");
    f.attributes = vec![NbtAttribute { id: "max_health".to_string(), base: Decimal::whole(40) }];
    assert_eq!(
        build_summon_command(&f),
        r#"summon minecraft:zombie ~ ~ ~ {Attributes:[{Name:"minecraft:generic.max_health",Base:40d}]}"#
    );
}

#[test]
fn effects_same_format_both_versions() {
    let mut f = base(MID, "zombie");
    f.effects = vec![NbtEffect { id: "speed".to_string(), duration: Some(200), amplifier: Some(1), show_particles: None }];
    assert_eq!(
        build_summon_command(&f),
        r#"summon minecraft:zombie ~ ~ ~ {active_effects:[{id:"minecraft:speed",duration:200,amplifier:1b,show_particles:1b}]}"#
    );
}

#[test]
fn equipment_121_5_plus_compound() {
    let mut f = base(MODERN, "zombie");
    f.equipment = Some(NbtEquipment {
        mainhand: Some(NbtItem { id: "diamond_sword".to_string(), ..Default::default() }),
        ..Default::default()
    });
    assert_eq!(
        build_summon_command(&f),
        r#"summon minecraft:zombie ~ ~ ~ {equipment:{mainhand:{id:"minecraft:diamond_sword",count:1}}}"#
    );
}

#[test]
fn equipment_1214_handitems_no_armoritems() {
    let mut f = base(MID, "zombie");
    f.equipment = Some(NbtEquipment {
        mainhand: Some(NbtItem { id: "diamond_sword".to_string(), ..Default::default() }),
        ..Default::default()
    });
    assert_eq!(
        build_summon_command(&f),
        r#"summon minecraft:zombie ~ ~ ~ {HandItems:[{id:"minecraft:diamond_sword",count:1},{}]}"#
    );
}

#[test]
fn equipment_1214_armor_fixed_order() {
    let mut f = base(MID, "zombie");
    f.equipment = Some(NbtEquipment {
        head: Some(NbtItem { id: "diamond_helmet".to_string(), ..Default::default() }),
        ..Default::default()
    });
    assert_eq!(
        build_summon_command(&f),
        r#"summon minecraft:zombie ~ ~ ~ {ArmorItems:[{},{},{},{id:"minecraft:diamond_helmet",count:1}]}"#
    );
}

#[test]
fn passengers() {
    let mut f = base(MODERN, "pig");
    f.passengers = vec![SummonPassenger { entity_type: "chicken".to_string(), ..Default::default() }];
    assert_eq!(build_summon_command(&f), r#"summon minecraft:pig ~ ~ ~ {Passengers:[{id:"minecraft:chicken"}]}"#);
}

#[test]
fn health_alone() {
    let mut f = base(MODERN, "zombie");
    f.health = Some(Decimal::whole(40));
    assert_eq!(build_summon_command(&f), "summon minecraft:zombie ~ ~ ~ {Health:40f}");
}

#[test]
fn health_and_max_health_attribute_combo() {
    let mut f = base(MODERN, "zombie");
    f.attributes = vec![NbtAttribute { id: "max_health".to_string(), base: Decimal::whole(40) }];
    f.health = Some(Decimal::whole(40));
    assert_eq!(
        build_summon_command(&f),
        r#"summon minecraft:zombie ~ ~ ~ {Health:40f,attributes:[{id:"minecraft:max_health",base:40d}]}"#
    );
}

#[test]
fn rotation_yaw_pitch() {
    let mut f = base(MODERN, "zombie");
    f.rotation = Some((Decimal::whole(90), Decimal::whole(0)));
    assert_eq!(build_summon_command(&f), "summon minecraft:zombie ~ ~ ~ {Rotation:[90f,0f]}");
}

#[test]
fn equipment_enchantments_121_5_plus_no_levels_wrap() {
    let mut f = base(MODERN, "zombie");
    f.equipment = Some(NbtEquipment {
        mainhand: Some(NbtItem {
            id: "diamond_sword".to_string(),
            enchantments: Some(vec![NbtEnchantment { id: "sharpness".to_string(), level: 5 }]),
            ..Default::default()
        }),
        ..Default::default()
    });
    assert_eq!(
        build_summon_command(&f),
        r#"summon minecraft:zombie ~ ~ ~ {equipment:{mainhand:{id:"minecraft:diamond_sword",count:1,components:{"minecraft:enchantments":{sharpness:5}}}}}"#
    );
}

#[test]
fn equipment_enchantments_java_1_21_levels_wrap() {
    let mut f = base(GiveVersion::Java1_21, "zombie");
    f.equipment = Some(NbtEquipment {
        mainhand: Some(NbtItem {
            id: "diamond_sword".to_string(),
            enchantments: Some(vec![NbtEnchantment { id: "sharpness".to_string(), level: 5 }]),
            ..Default::default()
        }),
        ..Default::default()
    });
    assert_eq!(
        build_summon_command(&f),
        r#"summon minecraft:zombie ~ ~ ~ {HandItems:[{id:"minecraft:diamond_sword",count:1,components:{"minecraft:enchantments":{levels:{sharpness:5}}}},{}]}"#
    );
}

#[test]
fn partial_coords_without_nbt_are_dropped() {
    let mut f = base(MODERN, "pig");
    f.x = Some("1".to_string());
    assert_eq!(build_summon_command(&f), "summon minecraft:pig");
}

#[test]
fn partial_coords_with_nbt_fill_the_rest() {
    let mut f = base(MODERN, "pig");
    f.x = Some("1".to_string());
    f.glowing = true;
    f.with_slash = true;
    assert_eq!(build_summon_command(&f), "/summon minecraft:pig 1 ~ ~ {Glowing:1b}");
}

#[test]
fn all_flags_in_order_with_extra_trimmed() {
    let mut f = base(MODERN, "minecraft:villager");
    f.no_ai = true;
    f.silent = true;
    f.persistence_required = true;
    f.invulnerable = true;
    f.no_gravity = true;
    f.glowing = true;
    f.extra_nbt = Some("  Age:-1  ".to_string());
    assert_eq!(
        build_summon_command(&f),
        "summon minecraft:villager ~ ~ ~ {NoAI:1b,Silent:1b,PersistenceRequired:1b,Invulnerable:1b,NoGravity:1b,Glowing:1b,Age:-1}"
    );
}

#[test]
fn blank_extra_and_empty_name_add_nothing() {
    let mut f = base(MODERN, "pig");
    f.extra_nbt = Some("   ".to_string());
    f.custom_name = Some(Vec::new());
    assert_eq!(build_summon_command(&f), "summon minecraft:pig");
}

#[test]
fn passenger_with_flags_and_extra() {
    let mut f = base(MODERN, "horse");
    f.passengers = vec![
        SummonPassenger {
            entity_type: "skeleton".to_string(),
            no_ai: true,
            silent: true,
            extra_nbt: Some(" Tags:[\"rider\"] ".to_string()),
            ..Default::default()
        },
        SummonPassenger { entity_type: "minecraft:cat".to_string(), ..Default::default() },
    ];
    assert_eq!(
        build_summon_command(&f),
        r#"summon minecraft:horse ~ ~ ~ {Passengers:[{id:"minecraft:skeleton",NoAI:1b,Silent:1b,Tags:["rider"]},{id:"minecraft:cat"}]}"#
    );
}

#[test]
fn fractional_rotation_and_health() {
    let mut f = base(MODERN, "zombie");
    f.rotation = Some((Decimal { mantissa: -455, exponent: -1 }, Decimal { mantissa: 125, exponent: -1 }));
    f.health = Some(Decimal { mantissa: 5, exponent: -1 });
    assert_eq!(build_summon_command(&f), "summon minecraft:zombie ~ ~ ~ {Rotation:[-45.5f,12.5f],Health:0.5f}");
}
