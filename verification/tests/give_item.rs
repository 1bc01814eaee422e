use soul_lantern::give::builder::{normalize_version, BlockLimitRow, GiveVersion};
use soul_lantern::give::form::{
    create_default_form, normalize_form, AttributeRow, EffectEntry, EffectGroup, EnchantRow, GiveForm, ToolRuleRow,
};
use soul_lantern::give::item::{build_give_command, GiveTables};
use soul_lantern::give::json::JsonValue;
use soul_lantern::give::number::Decimal;

const ITEMS: &[(&str, &str)] = &[("minecraft:stone", "石头"), ("minecraft:cobweb", "蜘蛛网")];
const BLOCKS: &[(&str, &str)] = &[("minecraft:stone", "石头"), ("minecraft:dirt", "泥土")];
const ENCHANTS: &[(&str, &str)] = &[("minecraft:unbreaking", "耐久")];
const ATTRIBUTES: &[(&str, &str)] = &[("minecraft:armor", "盔甲"), ("minecraft:max_health", "最大生命值")];
const BEDROCK_ITEMS: &[(&str, &str)] = &[
    ("minecraft:stone", "石头"),
    ("minecraft:web", "蜘蛛网"),
    ("minecraft:deadbush", "枯萎的灌木"),
    ("minecraft:lit_pumpkin", "南瓜灯"),
    ("minecraft:waterlily", "睡莲"),
    ("minecraft:noteblock", "音符盒"),
    ("minecraft:end_bricks", "末地石砖"),
    ("minecraft:border_block", "边界"),
];
const BEDROCK_BLOCKS: &[(&str, &str)] = &[("minecraft:noteblock", "音符盒"), ("minecraft:web", "蜘蛛网")];

fn tables() -> GiveTables {
    GiveTables {
        items: ITEMS,
        blocks: BLOCKS,
        enchants: ENCHANTS,
        attributes: ATTRIBUTES,
        bedrock_items: BEDROCK_ITEMS,
        bedrock_blocks: BEDROCK_BLOCKS,
    }
}

fn s(x: &str) -> JsonValue {
    JsonValue::String(x.to_string())
}

fn n(x: i64) -> JsonValue {
    JsonValue::Number(Decimal::whole(x))
}

fn b(x: bool) -> JsonValue {
    JsonValue::Bool(x)
}

fn arr(items: Vec<JsonValue>) -> JsonValue {
    JsonValue::Array(items)
}

fn obj(pairs: Vec<(&str, JsonValue)>) -> JsonValue {
    JsonValue::Object(pairs.into_iter().map(|(k, v)| (k.to_string(), v)).collect())
}

fn text(t: &str) -> JsonValue {
    obj(vec![("text", s(t))])
}

fn base(version: GiveVersion) -> GiveForm {
    let mut f = create_default_form();
    f.version = version;
    f.item = "minecraft:stone".to_string();
    f.target = "@a".to_string();
    f.count = 1;
    f
}

fn build(form: &GiveForm) -> String {
    let mut warnings = Vec::new();
    build_give_command(form, &tables(), &mut warnings, &mut 0)
}

fn build_w(form: &GiveForm) -> (String, Vec<String>) {
    let mut warnings = Vec::new();
    let cmd = build_give_command(form, &tables(), &mut warnings, &mut 0);
    (cmd, warnings)
}

fn enchant(id: &str, level: i64) -> EnchantRow {
    EnchantRow { id: id.to_string(), level: n(level) }
}

fn attribute(ty: &str, amount: i64, slot: &str, operation: &str, id: &str) -> AttributeRow {
    AttributeRow {
        attribute_type: ty.to_string(),
        amount: n(amount),
        slot: slot.to_string(),
        operation: operation.to_string(),
        id: id.to_string(),
    }
}

fn limit(block: &str, kind: &str) -> BlockLimitRow {
    BlockLimitRow { block: block.to_string(), limit_type: kind.to_string() }
}

#[test]
fn serde_tags_match_ts_string_literals() {
    let cases: &[(GiveVersion, &str)] = &[
        (GiveVersion::Java1_20_5, "\"java_1_20_5\""),
        (GiveVersion::Java1_21, "\"java_1_21\""),
        (GiveVersion::Java1_21_1, "\"java_1_21_1\""),
        (GiveVersion::Java1_21_2, "\"java_1_21_2\""),
        (GiveVersion::Java1_21_3, "\"java_1_21_3\""),
        (GiveVersion::Java1_21_4, "\"java_1_21_4\""),
        (GiveVersion::Java1_21_5, "\"java_1_21_5\""),
        (GiveVersion::Java1_21_6, "\"java_1_21_6\""),
        (GiveVersion::Java1_21_9, "\"java_1_21_9\""),
        (GiveVersion::Java1_21_11Plus, "\"java_1_21_11_plus\""),
        (GiveVersion::Java26_1, "\"java_26_1\""),
        (GiveVersion::Java26_2Plus, "\"java_26_2_plus\""),
        (GiveVersion::Bedrock, "\"bedrock\""),
    ];
    for (version, expected) in cases {
        assert_eq!(format!("\"{}\"", version.tag()), *expected);
        let parsed = normalize_version(expected.trim_matches('"'));
        assert_eq!(parsed, *version);
    }
}

#[test]
fn t01_java_1_21_11_plus_basic_item() {
    let f = base(GiveVersion::Java1_21_11Plus);
    assert_eq!(build(&f), "give @a minecraft:stone 1");
}

#[test]
fn t02_java_1_21_11_plus_item_name_present() {
    let mut f = base(GiveVersion::Java1_21_11Plus);
    f.item_name = vec![vec![text("My Item")]];
    assert!(build(&f).contains("item_name="));
}

#[test]
fn t03_java_1_21_item_name_was_broken_now_fixed() {
    let mut f = base(GiveVersion::Java1_21);
    f.item_name = vec![vec![obj(vec![("text", s("物品名称")), ("underlined", b(true)), ("color", s("#000599"))])]];
    let cmd = build(&f);
    assert!(cmd.contains("item_name="));
    assert!(cmd.contains("item_name='"));
}

#[test]
fn t04_java_1_21_1_item_name() {
    let mut f = base(GiveVersion::Java1_21_1);
    f.item_name = vec![vec![text("名称")]];
    assert!(build(&f).contains("item_name='"));
}

#[test]
fn t05_java_1_21_custom_name_snbt_format() {
    let mut f = base(GiveVersion::Java1_21);
    f.display_name =
        vec![vec![obj(vec![("text", s("字")), ("bold", b(true)), ("italic", b(false)), ("color", s("#000599"))])]];
    assert!(build(&f).contains("custom_name='"));
}

#[test]
fn t06_java_1_21_enchantments_levels_wrapper() {
    let mut f = base(GiveVersion::Java1_21);
    f.enchantments = vec![enchant("minecraft:unbreaking", 3)];
    assert!(build(&f).contains("enchantments={levels:{unbreaking:3}}"));
}

#[test]
fn t07_java_1_21_attribute_generic_prefix_and_modifiers_wrapper() {
    let mut f = base(GiveVersion::Java1_21);
    f.attributes = vec![attribute("armor", 10, "任意", "加算", "99")];
    let cmd = build(&f);
    assert!(cmd.contains("\"generic.armor\""));
    assert!(cmd.contains("attribute_modifiers={modifiers:["));
}

#[test]
fn t08_java_1_21_11_plus_enchantments_no_levels_wrapper() {
    let mut f = base(GiveVersion::Java1_21_11Plus);
    f.enchantments = vec![enchant("minecraft:unbreaking", 3)];
    assert!(build(&f).contains("enchantments={unbreaking:3}"));
}

#[test]
fn t09_java_1_21_food_eat_seconds_merging() {
    let mut f = base(GiveVersion::Java1_21);
    f.food_enabled = true;
    f.nutrition = 5;
    f.saturation = Decimal::whole(6);
    f.consumable_enabled = true;
    f.consume_seconds = Decimal::whole(2);
    let cmd = build(&f);
    assert!(cmd.contains("eat_seconds:2"));
    assert!(!cmd.contains("consumable="));
}

#[test]
fn t10_bedrock_basic_format() {
    let f = base(GiveVersion::Bedrock);
    assert!(build(&f).starts_with("give @a stone 1 0"));
}

#[test]
fn t10b_bedrock_uses_its_own_id_table() {
    let cases: &[(&str, &str)] = &[
        ("蜘蛛网", "web"),
        ("枯萎的灌木", "deadbush"),
        ("南瓜灯", "lit_pumpkin"),
        ("睡莲", "waterlily"),
        ("音符盒", "noteblock"),
        ("末地石砖", "end_bricks"),
    ];
    for (zh, bedrock_id) in cases {
        let mut f = base(GiveVersion::Bedrock);
        f.item = zh.to_string();
        assert_eq!(build(&f), format!("give @a {bedrock_id} 1 0"), "基岩版「{zh}」应使用基岩 id {bedrock_id}");
    }
    let mut j = base(GiveVersion::Java1_21_11Plus);
    j.item = "蜘蛛网".to_string();
    assert_eq!(build(&j), "give @a minecraft:cobweb 1");
}

#[test]
fn t10b2_bedrock_block_limits_use_bedrock_ids() {
    let mut f = base(GiveVersion::Bedrock);
    f.block_limits = vec![limit("音符盒", "可放置")];
    assert!(build(&f).contains("\"noteblock\""));
}

#[test]
fn t10b3_bedrock_only_item_generates_fine() {
    let mut f = base(GiveVersion::Bedrock);
    f.item = "边界".to_string();
    assert_eq!(build(&f), "give @a border_block 1 0");
}

#[test]
fn t11_java_1_21_lore_is_snbt_string_array() {
    let mut f = base(GiveVersion::Java1_21);
    f.lore = vec![vec![text("第一行")], vec![text("第二行")]];
    let cmd = build(&f);
    assert!(cmd.contains("lore=['") || cmd.contains("lore=[\""));
    assert!(cmd.contains("lore=['"));
}

#[test]
fn t12_java_1_21_unbreakable() {
    let mut f = base(GiveVersion::Java1_21);
    f.unbreakable = true;
    assert!(build(&f).contains("unbreakable={}"));
}

#[test]
fn t13_java_1_21_no_glider_no_death_protection() {
    let mut f = base(GiveVersion::Java1_21);
    f.glider = true;
    f.death_protection = true;
    let cmd = build(&f);
    assert!(!cmd.contains("glider"));
    assert!(!cmd.contains("death_protection"));
}

#[test]
fn t14_java_1_21_can_place_on_can_break_predicates_wrapper() {
    let mut f = base(GiveVersion::Java1_21);
    f.block_limits = vec![limit("minecraft:stone", "place"), limit("minecraft:dirt", "break")];
    let cmd = build(&f);
    assert!(cmd.contains(r#"can_place_on={predicates:[{blocks:"minecraft:stone"}]}"#));
    assert!(cmd.contains(r#"can_break={predicates:[{blocks:"minecraft:dirt"}]}"#));
}

#[test]
fn t15_java_1_21_11_plus_can_place_on_can_break_direct_list() {
    let mut f = base(GiveVersion::Java1_21_11Plus);
    f.block_limits = vec![limit("minecraft:stone", "place"), limit("minecraft:dirt", "break")];
    let cmd = build(&f);
    assert!(cmd.contains(r#"can_place_on=[{blocks:"minecraft:stone"}]"#));
    assert!(cmd.contains(r#"can_break=[{blocks:"minecraft:dirt"}]"#));
    assert!(!cmd.contains("predicates"));
}

#[test]
fn t16_java_1_21_numeric_attribute_id_quoted() {
    let mut f = base(GiveVersion::Java1_21);
    f.attributes = vec![attribute("armor", 1, "any", "add_value", "123")];
    assert!(build(&f).contains(r#"id:"123""#));
}

#[test]
fn t17_java_1_21_11_plus_tooltip_display_hidden_components_quoted() {
    let mut f = base(GiveVersion::Java1_21_11Plus);
    f.hidden_components = "enchantments".to_string();
    assert!(build(&f).contains(r#"hidden_components:["minecraft:enchantments"]"#));
}

#[test]
fn t18_java_1_21_2_text_uses_snbt_single_quoted_strings() {
    let mut f = base(GiveVersion::Java1_21_2);
    f.display_name = vec![vec![text("hi")]];
    f.item_name = vec![vec![text("name")]];
    f.lore = vec![vec![text("a")]];
    let cmd = build(&f);
    assert!(cmd.contains("custom_name='"));
    assert!(cmd.contains("item_name='"));
    assert!(cmd.contains("lore=['"));
}

#[test]
fn t19_java_1_21_2_enchantments_flat_no_levels_wrapper() {
    let mut f = base(GiveVersion::Java1_21_2);
    f.enchantments = vec![enchant("minecraft:unbreaking", 3)];
    let cmd = build(&f);
    assert!(cmd.contains("enchantments={unbreaking:3}"));
    assert!(!cmd.contains("levels"));
}

#[test]
fn t20_java_1_21_2_attribute_modern_array_unquoted_type() {
    let mut f = base(GiveVersion::Java1_21_2);
    f.attributes = vec![attribute("armor", 2, "any", "add_value", "x")];
    let cmd = build(&f);
    assert!(cmd.contains("attribute_modifiers=[{type:armor"));
    assert!(!cmd.contains("modifiers:["));
    assert!(cmd.contains(r#"id:"x""#));
}

#[test]
fn t21_java_1_21_2_can_place_on_can_break_predicates_wrapper() {
    let mut f = base(GiveVersion::Java1_21_2);
    f.block_limits = vec![limit("minecraft:stone", "place"), limit("minecraft:dirt", "break")];
    let cmd = build(&f);
    assert!(cmd.contains(r#"can_place_on={predicates:[{blocks:"minecraft:stone"}]}"#));
    assert!(cmd.contains(r#"can_break={predicates:[{blocks:"minecraft:dirt"}]}"#));
}

#[test]
fn t22_java_1_21_2_supports_glider_death_protection_consumable() {
    let mut f = base(GiveVersion::Java1_21_2);
    f.glider = true;
    f.death_protection = true;
    f.consumable_enabled = true;
    f.consume_seconds = Decimal::whole(2);
    let cmd = build(&f);
    assert!(cmd.contains("glider={}"));
    assert!(cmd.contains("death_protection"));
    assert!(cmd.contains("consumable={consume_seconds:2"));
}

#[test]
fn t23_java_1_21_2_omits_tooltip_display() {
    let mut f = base(GiveVersion::Java1_21_2);
    f.hidden_components = "enchantments".to_string();
    assert!(!build(&f).contains("tooltip_display"));
}

fn same_syntax_form(version: GiveVersion) -> String {
    let mut f = base(version);
    f.display_name = vec![vec![text("hi")]];
    f.enchantments = vec![enchant("minecraft:unbreaking", 3)];
    f.glider = true;
    f.block_limits = vec![limit("minecraft:stone", "place")];
    build(&f)
}

#[test]
fn t24_java_1_21_3_same_syntax_as_1_21_2() {
    assert_eq!(same_syntax_form(GiveVersion::Java1_21_3), same_syntax_form(GiveVersion::Java1_21_2));
}

#[test]
fn t25_java_1_21_4_same_syntax_as_1_21_2() {
    assert_eq!(same_syntax_form(GiveVersion::Java1_21_4), same_syntax_form(GiveVersion::Java1_21_2));
}

#[test]
fn t26_java_1_21_5_same_syntax_as_1_21_11_plus() {
    let make = |version: GiveVersion| -> String {
        let mut f = base(version);
        f.display_name = vec![vec![text("hi")]];
        f.block_limits = vec![limit("minecraft:stone", "place")];
        f.hidden_components = "enchantments".to_string();
        build(&f)
    };
    assert_eq!(make(GiveVersion::Java1_21_5), make(GiveVersion::Java1_21_11Plus));
}

#[test]
fn t27_java_1_21_6_same_syntax_as_1_21_11_plus() {
    let mut f1 = base(GiveVersion::Java1_21_6);
    let mut f2 = base(GiveVersion::Java1_21_11Plus);
    f1.enchantments = vec![enchant("minecraft:unbreaking", 2)];
    f2.enchantments = vec![enchant("minecraft:unbreaking", 2)];
    assert_eq!(build(&f1), build(&f2));
}

#[test]
fn t28_java_1_21_9_same_syntax_as_1_21_11_plus() {
    let mut f1 = base(GiveVersion::Java1_21_9);
    let mut f2 = base(GiveVersion::Java1_21_11Plus);
    f1.death_protection = true;
    f2.death_protection = true;
    assert_eq!(build(&f1), build(&f2));
}

#[test]
fn t29_java_26_1_and_26_2_plus_same_syntax_as_1_21_11_plus() {
    let mut f1 = base(GiveVersion::Java26_1);
    let mut f2 = base(GiveVersion::Java26_2Plus);
    let mut f3 = base(GiveVersion::Java1_21_11Plus);
    f1.glider = true;
    f2.glider = true;
    f3.glider = true;
    f1.hidden_components = "enchantments".to_string();
    f2.hidden_components = "enchantments".to_string();
    f3.hidden_components = "enchantments".to_string();
    assert_eq!(build(&f1), build(&f3));
    assert_eq!(build(&f2), build(&f3));
}

#[test]
fn t30_java_1_20_5_text_uses_snbt_single_quoted_strings() {
    let mut f = base(GiveVersion::Java1_20_5);
    f.display_name = vec![vec![text("hi")]];
    f.item_name = vec![vec![text("name")]];
    f.lore = vec![vec![text("a")]];
    let cmd = build(&f);
    assert!(cmd.contains("custom_name='"));
    assert!(cmd.contains("item_name='"));
    assert!(cmd.contains("lore=['"));
}

#[test]
fn t31_java_1_20_5_can_place_on_predicates_wrapper() {
    let mut f = base(GiveVersion::Java1_20_5);
    f.block_limits = vec![limit("minecraft:stone", "place")];
    assert!(build(&f).contains(r#"can_place_on={predicates:[{blocks:"minecraft:stone"}]}"#));
}

#[test]
fn t32_java_1_20_5_no_consumable_glider_death_protection() {
    let mut f = base(GiveVersion::Java1_20_5);
    f.consumable_enabled = true;
    f.consume_seconds = Decimal::whole(2);
    f.glider = true;
    f.death_protection = true;
    let cmd = build(&f);
    assert!(!cmd.contains("consumable="));
    assert!(!cmd.contains("glider"));
    assert!(!cmd.contains("death_protection"));
}

#[test]
fn t33_java_1_20_5_no_attribute_modifiers() {
    let mut f = base(GiveVersion::Java1_20_5);
    f.attributes = vec![attribute("armor", 5, "任意", "加算", "test")];
    assert!(!build(&f).contains("attribute_modifiers"));
}

#[test]
fn t34_java_1_20_5_no_tooltip_display() {
    let mut f = base(GiveVersion::Java1_20_5);
    f.hidden_components = "enchantments".to_string();
    assert!(!build(&f).contains("tooltip_display"));
}

#[test]
fn t35_java_1_20_5_enchantments_flat_format() {
    let mut f = base(GiveVersion::Java1_20_5);
    f.enchantments = vec![enchant("minecraft:unbreaking", 3)];
    assert!(build(&f).contains("enchantments={unbreaking:3}"));
}

#[test]
fn t36_font_emitted_modern() {
    let mut f = base(GiveVersion::Java1_21_11Plus);
    f.display_name = vec![vec![obj(vec![("text", s("A")), ("font", s("minecraft:illageralt"))])]];
    assert!(build(&f).contains(r#""font":"minecraft:illageralt""#));
}

#[test]
fn t37_obfuscated_emitted() {
    let mut f = base(GiveVersion::Java1_21_11Plus);
    f.display_name = vec![vec![obj(vec![("text", s("A")), ("obfuscated", b(true))])]];
    assert!(build(&f).contains(r#""obfuscated":true"#));
}

#[test]
fn t38_named_color_passthrough() {
    let mut f = base(GiveVersion::Java1_21_11Plus);
    f.display_name = vec![vec![obj(vec![("text", s("A")), ("color", s("red"))])]];
    assert!(build(&f).contains(r#""color":"red""#));
}

#[test]
fn t39_object_sprite_and_player_on_1_21_11_plus() {
    let mut f = base(GiveVersion::Java1_21_11Plus);
    f.display_name = vec![vec![
        obj(vec![("type", s("object")), ("object", s("atlas")), ("atlas", s("minecraft:blocks")), ("sprite", s("block/stone"))]),
        obj(vec![("type", s("object")), ("object", s("player")), ("player", s("Notch")), ("hat", b(true))]),
    ]];
    let cmd = build(&f);
    assert!(cmd.contains(r#"{"type":"object","object":"atlas","atlas":"minecraft:blocks","sprite":"block/stone"}"#));
    assert!(cmd.contains(r#"{"type":"object","object":"player","player":"Notch","hat":true}"#));
}

#[test]
fn t40_object_stripped_on_1_21_6_with_warning() {
    let mut f = base(GiveVersion::Java1_21_6);
    f.display_name = vec![vec![text("x"), obj(vec![("type", s("object")), ("sprite", s("item/diamond"))])]];
    let (cmd, warnings) = build_w(&f);
    assert!(!cmd.contains(r#""type":"object""#));
    assert!(!warnings.is_empty());
    assert!(cmd.contains(r#"{"text":"x"}"#));
}

#[test]
fn t41_object_stripped_on_1_21_legacy_too() {
    let mut f = base(GiveVersion::Java1_21);
    f.display_name = vec![vec![obj(vec![("type", s("object")), ("sprite", s("item/diamond"))])]];
    assert!(!build(&f).contains("object"));
}

#[test]
fn t42_click_event_modern_snake_case() {
    let mut f = base(GiveVersion::Java1_21_11Plus);
    f.display_name = vec![vec![obj(vec![
        ("text", s("c")),
        ("click_event", obj(vec![("action", s("run_command")), ("value", s("say hi"))])),
    ])]];
    assert!(build(&f).contains(r#""click_event":{"action":"run_command","command":"say hi"}"#));
}

#[test]
fn t43_click_event_legacy_camel_case() {
    let mut f = base(GiveVersion::Java1_21);
    f.display_name = vec![vec![obj(vec![
        ("text", s("c")),
        ("click_event", obj(vec![("action", s("run_command")), ("value", s("/say hi"))])),
    ])]];
    assert!(build(&f).contains(r#""clickEvent":{"action":"run_command","value":"/say hi"}"#));
}

#[test]
fn t44_hover_event_modern_show_text() {
    let mut f = base(GiveVersion::Java1_21_11Plus);
    f.display_name = vec![vec![obj(vec![
        ("text", s("h")),
        ("hover_event", obj(vec![("action", s("show_text")), ("text", arr(vec![text("tip")]))])),
    ])]];
    assert!(build(&f).contains(r#""hover_event":{"action":"show_text","value":[{"text":"tip"}]}"#));
}

#[test]
fn t45_hover_event_legacy_contents() {
    let mut f = base(GiveVersion::Java1_21);
    f.display_name = vec![vec![obj(vec![
        ("text", s("h")),
        ("hover_event", obj(vec![("action", s("show_text")), ("text", arr(vec![text("tip")]))])),
    ])]];
    assert!(build(&f).contains(r#""hoverEvent":{"action":"show_text","contents":[{"text":"tip"}]}"#));
}

#[test]
fn t46_translatable_with_args() {
    let mut f = base(GiveVersion::Java1_21_11Plus);
    f.lore = vec![vec![obj(vec![
        ("type", s("translatable")),
        ("translate", s("item.minecraft.stone")),
        ("with", arr(vec![text("arg")])),
    ])]];
    let cmd = build(&f);
    assert!(cmd.contains(r#""translate":"item.minecraft.stone""#));
    assert!(cmd.contains(r#""with":[{"text":"arg"}]"#));
}

#[test]
fn t47_keybind_selector_score_nbt() {
    let mut f = base(GiveVersion::Java1_21_11Plus);
    f.lore = vec![
        vec![obj(vec![("type", s("keybind")), ("keybind", s("key.jump"))])],
        vec![obj(vec![("type", s("selector")), ("selector", s("@p"))])],
        vec![obj(vec![("type", s("score")), ("score", obj(vec![("name", s("@s")), ("objective", s("kills"))]))])],
        vec![obj(vec![
            ("type", s("nbt")),
            ("nbt", s("Health")),
            ("source", s("entity")),
            ("entity", s("@s")),
            ("interpret", b(true)),
        ])],
    ];
    let cmd = build(&f);
    assert!(cmd.contains(r#"{"keybind":"key.jump"}"#));
    assert!(cmd.contains(r#"{"selector":"@p"}"#));
    assert!(cmd.contains(r#"{"score":{"name":"@s","objective":"kills"}}"#));
    assert!(cmd.contains(r#""nbt":"Health","source":"entity","entity":"@s","interpret":true"#));
}

#[test]
fn t48_shadow_color_array_kept_on_1_21_4_plus_converted_below() {
    let mut f = base(GiveVersion::Java1_21_4);
    f.display_name = vec![vec![obj(vec![("text", s("s")), ("shadow_color", arr(vec![n(1), n(0), n(0), n(1)]))])]];
    assert!(build(&f).contains(r#""shadow_color":[1,0,0,1]"#));

    let mut f2 = base(GiveVersion::Java1_21_2);
    f2.display_name = vec![vec![obj(vec![("text", s("s")), ("shadow_color", arr(vec![n(1), n(0), n(0), n(1)]))])]];
    assert!(build(&f2).contains(r#""shadow_color":-65536"#));
}

#[test]
fn custom_data_component() {
    let mut f = base(GiveVersion::Java1_21_11Plus);
    f.custom_data = "{soul_tnt_arrow:1b}".to_string();
    assert_eq!(build(&f), "give @a minecraft:stone[custom_data={soul_tnt_arrow:1b}] 1");

    let mut f = base(GiveVersion::Java1_21);
    f.custom_data = "{soul_tnt_arrow:1b}".to_string();
    assert_eq!(build(&f), "give @a minecraft:stone[custom_data={soul_tnt_arrow:1b}] 1");

    let mut f = base(GiveVersion::Java1_21_11Plus);
    f.custom_data = "   ".to_string();
    assert_eq!(build(&f), "give @a minecraft:stone 1");
}

#[test]
fn normalize_form_defensive_against_missing_and_dirty_fields() {
    let form = normalize_form(&obj(vec![
        ("version", s("not_a_real_version")),
        ("count", s("not-a-number")),
        ("enchantments", s("not-an-array")),
    ]));
    assert_eq!(form.version, GiveVersion::Java1_21_11Plus);
    assert_eq!(form.count, 1);
    assert!(form.enchantments.is_empty());
    assert_eq!(form.item, "石头");
}

#[test]
fn normalize_form_on_non_object_returns_default() {
    let form = normalize_form(&s("just a string"));
    assert_eq!(form.item, create_default_form().item);
}

// ---------------------------------------------------------------- further cases

#[test]
fn full_modern_command_is_exact() {
    let mut f = base(GiveVersion::Java1_21_11Plus);
    f.count = 3;
    f.with_slash = true;
    f.rarity = "史诗".to_string();
    f.glint = "开启".to_string();
    f.enchantments = vec![enchant("耐久", 3), enchant("  ", 1)];
    f.unbreakable = true;
    f.damage_enabled = true;
    f.damage = -5;
    f.food_enabled = true;
    f.nutrition = 4;
    f.saturation = Decimal { mantissa: 25, exponent: -1 };
    f.always_eat = "是".to_string();
    assert_eq!(
        build(&f),
        "/give @a minecraft:stone[rarity=epic,enchantment_glint_override=true,enchantments={unbreaking:3},unbreakable={},damage=0,food={nutrition:4,saturation:2.5,can_always_eat:1b}] 3"
    );
}

#[test]
fn attribute_without_id_gets_a_generated_one() {
    let mut f = base(GiveVersion::Java1_21_11Plus);
    f.attributes = vec![attribute("最大生命值", 4, "主手", "", "")];
    let cmd = build(&f);
    assert!(cmd.starts_with("give @a minecraft:stone[attribute_modifiers=[{type:max_health,amount:4,slot:mainhand,id:\""));
    assert!(cmd.ends_with("\",operation:add_value}]] 1"));
}

#[test]
fn bedrock_components_are_json() {
    let mut f = base(GiveVersion::Bedrock);
    f.block_limits = vec![limit("音符盒", "两者")];
    f.bedrock_item_lock = "锁定槽位".to_string();
    f.bedrock_keep_on_death = true;
    f.bedrock_data_value = 2;
    assert_eq!(
        build(&f),
        r#"give @a stone 1 2 {"minecraft:can_place_on":{"blocks":["noteblock"]},"minecraft:can_destroy":{"blocks":["noteblock"]},"minecraft:item_lock":{"mode":"lock_in_slot"},"minecraft:keep_on_death":{}}"#
    );
}

#[test]
fn death_and_consume_effect_groups() {
    let mut f = base(GiveVersion::Java1_21_11Plus);
    f.death_effects = vec![
        EffectGroup {
            group_type: "apply_effects".to_string(),
            probability_percent: n(50),
            diameter: JsonValue::Null,
            effects: vec![EffectEntry::Full {
                id: "minecraft:regeneration".to_string(),
                duration: n(100),
                amplifier: s("1"),
                show_particles: Some(false),
                show_icon: None,
            }],
        },
        EffectGroup {
            group_type: "teleport_randomly".to_string(),
            probability_percent: JsonValue::Null,
            diameter: JsonValue::Null,
            effects: vec![],
        },
    ];
    assert_eq!(
        build(&f),
        "give @a minecraft:stone[death_protection={death_effects:[{type:apply_effects,probability:0.5,effects:[{id:regeneration,duration:100,amplifier:1,ShowParticles:0b,ShowIcon:1b}]},{type:teleport_randomly,diameter:16}]}] 1"
    );
}

#[test]
fn tool_rules_map_blocks_and_speed() {
    let mut f = base(GiveVersion::Java1_21_11Plus);
    f.tool_enabled = true;
    f.default_mining_speed = Decimal::whole(1);
    f.tool_rules = vec![ToolRuleRow {
        blocks: s("石头, dirt,,"),
        speed: JsonValue::Number(Decimal { mantissa: 15, exponent: -1 }),
        correct_for_drops: "是".to_string(),
    }];
    assert_eq!(
        build(&f),
        "give @a minecraft:stone[tool={default_mining_speed:1,damage_per_block:0,rules:[{blocks:[stone,dirt],speed:1.5f,correct_for_drops:1b}]}] 1"
    );
}

#[test]
fn normalize_form_reads_fields() {
    let form = normalize_form(&obj(vec![
        ("version", s("java_1_21_2")),
        ("item", s("钻石剑")),
        ("count", s(" 2.9 ")),
        ("withSlash", n(1)),
        ("displayName", arr(vec![arr(vec![text("名字")]), s("bad line")])),
        ("enchantments", arr(vec![obj(vec![("id", s("sharpness")), ("level", n(5))])])),
        ("saturation", n(-3)),
    ]));
    assert_eq!(form.version, GiveVersion::Java1_21_2);
    assert_eq!(form.item, "钻石剑");
    assert_eq!(form.count, 2);
    assert!(form.with_slash);
    assert_eq!(form.display_name.len(), 2);
    assert_eq!(form.display_name[0].len(), 1);
    assert!(form.display_name[1].is_empty());
    assert_eq!(form.enchantments.len(), 1);
    assert_eq!(form.enchantments[0].id, "sharpness");
    assert_eq!(form.saturation.mantissa, 0);
    assert_eq!(form.target, "@a");
}

#[test]
fn generated_modifier_ids_number_on_across_commands() {
    let mut f = base(GiveVersion::Java1_21);
    f.attributes = vec![attribute("armor", 2, "", "", ""), attribute("armor", 3, "", "", "")];
    let mut counter = 5u64;
    let mut warnings = Vec::new();
    let first = build_give_command(&f, &tables(), &mut warnings, &mut counter);
    assert_eq!(counter, 7);
    let second = build_give_command(&f, &tables(), &mut warnings, &mut counter);
    assert_eq!(counter, 9);
    for (cmd, serials) in [(&first, ["-5\"", "-6\""]), (&second, ["-7\"", "-8\""])] {
        for s in serials {
            assert!(cmd.contains(s), "{cmd}");
        }
    }
    let mut top = u64::MAX;
    build_give_command(&f, &tables(), &mut warnings, &mut top);
    assert_eq!(top, 1);
}
