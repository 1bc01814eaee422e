use soul_lantern::give::builder::GiveVersion;
use soul_lantern::give::commands::attribute::{
    build_attribute_command, operation_keyword, AttributeAction, AttributeForm, AttributeOperation,
};
use soul_lantern::give::commands::particle::{build_particle_command, namespaced_particle_id, ParticleForm, ParticleMode};
use soul_lantern::give::number::Decimal;

const MODERN: GiveVersion = GiveVersion::Java1_21_5;
const MID: GiveVersion = GiveVersion::Java1_21_4;

fn form(version: GiveVersion, attribute: &str, action: AttributeAction) -> AttributeForm {
    AttributeForm { version, with_slash: false, target: "@s".to_string(), attribute: attribute.to_string(), action }
}

fn dec(mantissa: i64, exponent: i16) -> Decimal {
    Decimal { mantissa, exponent }
}

#[test]
fn base_set_modern_no_generic_prefix() {
    let f = form(MODERN, "max_health", AttributeAction::BaseSet { value: Decimal::whole(40) });
    assert_eq!(build_attribute_command(&f), "attribute @s minecraft:max_health base set 40");
}

#[test]
fn base_set_mid_with_generic_prefix() {
    let f = form(MID, "max_health", AttributeAction::BaseSet { value: Decimal::whole(40) });
    assert_eq!(build_attribute_command(&f), "attribute @s minecraft:generic.max_health base set 40");
}

#[test]
fn input_with_prefix_normalized_by_version() {
    let f = form(MODERN, "minecraft:generic.max_health", AttributeAction::BaseSet { value: Decimal::whole(40) });
    assert_eq!(build_attribute_command(&f), "attribute @s minecraft:max_health base set 40");
}

#[test]
fn modifier_add_121_plus() {
    let f = form(
        MODERN,
        "max_health",
        AttributeAction::ModifierAdd {
            id: "my_buff".to_string(),
            name: None,
            value: Decimal::whole(4),
            operation: AttributeOperation::Add,
        },
    );
    assert_eq!(
        build_attribute_command(&f),
        "attribute @s minecraft:max_health modifier add minecraft:my_buff 4 add_value"
    );
}

#[test]
fn modifier_add_1205_legacy() {
    let f = form(
        GiveVersion::Java1_20_5,
        "max_health",
        AttributeAction::ModifierAdd {
            id: "uuid-1".to_string(),
            name: Some("buff".to_string()),
            value: Decimal::whole(4),
            operation: AttributeOperation::MultiplyTotal,
        },
    );
    assert_eq!(
        build_attribute_command(&f),
        "attribute @s minecraft:generic.max_health modifier add uuid-1 buff 4 multiply"
    );
}

#[test]
fn get_with_scale() {
    let f = form(MODERN, "max_health", AttributeAction::Get { scale: Some(dec(5, -1)) });
    assert_eq!(build_attribute_command(&f), "attribute @s minecraft:max_health get 0.5");
}

#[test]
fn legacy_modifier_without_name_repeats_id() {
    let f = form(
        GiveVersion::Java1_20_5,
        "generic.armor",
        AttributeAction::ModifierAdd {
            id: "uuid-2".to_string(),
            name: None,
            value: dec(-25, -1),
            operation: AttributeOperation::MultiplyBase,
        },
    );
    assert_eq!(
        build_attribute_command(&f),
        "attribute @s minecraft:generic.armor modifier add uuid-2 uuid-2 -2.5 multiply_base"
    );
}

#[test]
fn remove_and_value_get_namespace_by_version() {
    let f = form(MODERN, "armor", AttributeAction::ModifierRemove { id: "my_buff".to_string() });
    assert_eq!(build_attribute_command(&f), "attribute @s minecraft:armor modifier remove minecraft:my_buff");
    let f = form(GiveVersion::Java1_20_5, "armor", AttributeAction::ModifierRemove { id: "uuid-3".to_string() });
    assert_eq!(build_attribute_command(&f), "attribute @s minecraft:generic.armor modifier remove uuid-3");
    let mut f = form(
        MID,
        "armor",
        AttributeAction::ModifierValueGet { id: "ns:buff".to_string(), scale: Some(Decimal::whole(2)) },
    );
    f.with_slash = true;
    assert_eq!(build_attribute_command(&f), "/attribute @s minecraft:generic.armor modifier value get ns:buff 2");
}

#[test]
fn base_get_without_scale() {
    let f = form(MODERN, "max_health", AttributeAction::BaseGet { scale: None });
    assert_eq!(build_attribute_command(&f), "attribute @s minecraft:max_health base get");
}

#[test]
fn operation_keywords_by_era() {
    assert_eq!(operation_keyword(AttributeOperation::Add, true), "add");
    assert_eq!(operation_keyword(AttributeOperation::MultiplyBase, true), "multiply_base");
    assert_eq!(operation_keyword(AttributeOperation::MultiplyTotal, true), "multiply");
    assert_eq!(operation_keyword(AttributeOperation::Add, false), "add_value");
    assert_eq!(operation_keyword(AttributeOperation::MultiplyBase, false), "add_multiplied_base");
    assert_eq!(operation_keyword(AttributeOperation::MultiplyTotal, false), "add_multiplied_total");
}

#[test]
fn simplest_form() {
    let form = ParticleForm { name: "flame".to_string(), ..Default::default() };
    assert_eq!(build_particle_command(&form), "particle minecraft:flame");
}

#[test]
fn with_pos_and_extra() {
    let form = ParticleForm {
        name: "flame".to_string(),
        x: Some("~".to_string()),
        y: Some("~1".to_string()),
        z: Some("~".to_string()),
        dx: Some(dec(3, -1)),
        dy: Some(dec(3, -1)),
        dz: Some(dec(3, -1)),
        speed: Some(dec(2, -2)),
        count: Some(20),
        ..Default::default()
    };
    assert_eq!(build_particle_command(&form), "particle minecraft:flame ~ ~1 ~ 0.3 0.3 0.3 0.02 20");
}

#[test]
fn force_mode() {
    let form = ParticleForm {
        name: "totem_of_undying".to_string(),
        x: Some("~".to_string()),
        y: Some("~1".to_string()),
        z: Some("~".to_string()),
        dx: Some(dec(5, -1)),
        dy: Some(dec(5, -1)),
        dz: Some(dec(5, -1)),
        speed: Some(Decimal::whole(0)),
        count: Some(100),
        mode: Some(ParticleMode::Force),
        ..Default::default()
    };
    assert_eq!(build_particle_command(&form), "particle minecraft:totem_of_undying ~ ~1 ~ 0.5 0.5 0.5 0 100 force");
}

#[test]
fn viewers_auto_normal() {
    let form = ParticleForm {
        name: "flame".to_string(),
        x: Some("~".to_string()),
        y: Some("~".to_string()),
        z: Some("~".to_string()),
        count: Some(5),
        viewers: Some("@a".to_string()),
        ..Default::default()
    };
    assert_eq!(build_particle_command(&form), "particle minecraft:flame ~ ~ ~ 0 0 0 1 5 normal @a");
}

#[test]
fn parametric_dust_particle() {
    let form = ParticleForm {
        name: "dust{color:[1.0,0.2,0.2],scale:1.5}".to_string(),
        x: Some("~".to_string()),
        y: Some("~".to_string()),
        z: Some("~".to_string()),
        count: Some(10),
        ..Default::default()
    };
    assert_eq!(build_particle_command(&form), "particle minecraft:dust{color:[1.0,0.2,0.2],scale:1.5} ~ ~ ~ 0 0 0 1 10");
}

#[test]
fn particle_with_slash() {
    let form = ParticleForm { name: "flame".to_string(), with_slash: true, ..Default::default() };
    assert_eq!(build_particle_command(&form), "/particle minecraft:flame");
}

#[test]
fn particle_id_namespace_only_before_brace() {
    assert_eq!(namespaced_particle_id("  block{block_state:{Name:\"minecraft:stone\"}} "), "minecraft:block{block_state:{Name:\"minecraft:stone\"}}");
    assert_eq!(namespaced_particle_id("minecraft:end_rod"), "minecraft:end_rod");
    assert_eq!(namespaced_particle_id("ns:spark{a:1}"), "ns:spark{a:1}");
}

#[test]
fn partial_position_is_filled_when_extra_follows() {
    let form = ParticleForm { name: "flame".to_string(), y: Some("5".to_string()), mode: Some(ParticleMode::Normal), ..Default::default() };
    assert_eq!(build_particle_command(&form), "particle minecraft:flame ~ 5 ~ 0 0 0 1 1 normal");
    let form = ParticleForm { name: "flame".to_string(), y: Some("5".to_string()), ..Default::default() };
    assert_eq!(build_particle_command(&form), "particle minecraft:flame");
}
