use soul_lantern::give::builder::GiveVersion;
use soul_lantern::give::catalog::GiveCatalogs;
use soul_lantern::give::dispatch::{dispatch_intent, dispatch_intents, CommandIntent, DispatchResult};
use soul_lantern::give::json::JsonValue;
use soul_lantern::give::number::{parse_number, Decimal, NumberText};

const MODERN: GiveVersion = GiveVersion::Java1_21_5;
const MID: GiveVersion = GiveVersion::Java1_21_4;
const BEDROCK: GiveVersion = GiveVersion::Bedrock;

const ITEMS: &[(&str, &str)] = &[
    ("minecraft:stone", "石头"),
    ("minecraft:cobweb", "蜘蛛网"),
    ("minecraft:mace", "重锤"),
    ("minecraft:diamond_sword", "钻石剑"),
    ("minecraft:diamond_helmet", "钻石头盔"),
    ("minecraft:diamond", "钻石"),
    ("minecraft:bow", "弓"),
    ("minecraft:arrow", "箭"),
    ("minecraft:fishing_rod", "钓鱼竿"),
    ("minecraft:tnt", "TNT"),
];
const BLOCKS: &[(&str, &str)] = &[
    ("minecraft:stone", "石头"),
    ("minecraft:air", "空气"),
    ("minecraft:water", "水"),
    ("minecraft:chest", "箱子"),
    ("minecraft:repeating_command_block", "循环型命令方块"),
];
const ENTITIES: &[(&str, &str)] =
    &[("minecraft:zombie", "僵尸"), ("minecraft:pig", "猪"), ("minecraft:chicken", "鸡"), ("minecraft:tnt", "TNT")];
const BEDROCK_ITEMS: &[(&str, &str)] =
    &[("minecraft:stone", "石头"), ("minecraft:web", "蜘蛛网"), ("minecraft:border_block", "边界")];
const BEDROCK_BLOCKS: &[(&str, &str)] = &[("minecraft:stone", "石头")];
const BEDROCK_ENTITIES: &[(&str, &str)] = &[("minecraft:zombie", "僵尸")];
const ENCHANTS: &[(&str, &str)] =
    &[("minecraft:sharpness", "锋利"), ("minecraft:power", "力量"), ("minecraft:unbreaking", "耐久")];
const EFFECTS: &[(&str, &str)] = &[("minecraft:speed", "迅捷"), ("minecraft:regeneration", "生命恢复")];
const ATTRIBUTES: &[(&str, &str)] = &[("minecraft:max_health", "最大生命值"), ("minecraft:armor", "盔甲")];
const PARTICLES: &[(&str, &str)] =
    &[("minecraft:flame", "火焰"), ("minecraft:dust", "粉尘"), ("minecraft:block", "方块")];

fn cats() -> GiveCatalogs {
    GiveCatalogs {
        items: ITEMS,
        blocks: BLOCKS,
        entities: ENTITIES,
        bedrock_items: BEDROCK_ITEMS,
        bedrock_blocks: BEDROCK_BLOCKS,
        bedrock_entities: BEDROCK_ENTITIES,
        enchants: ENCHANTS,
        effects: EFFECTS,
        attributes: ATTRIBUTES,
        particles: PARTICLES,
    }
}

fn to_json(v: &serde_json::Value) -> JsonValue {
    match v {
        serde_json::Value::Null => JsonValue::Null,
        serde_json::Value::Bool(b) => JsonValue::Bool(*b),
        serde_json::Value::Number(n) => JsonValue::Number(match n.as_i64() {
            Some(i) => Decimal::whole(i),
            None => match parse_number(&n.to_string()) {
                Some(NumberText::Finite(d)) => d,
                _ => Decimal::whole(0),
            },
        }),
        serde_json::Value::String(s) => JsonValue::String(s.clone()),
        serde_json::Value::Array(a) => JsonValue::Array(a.iter().map(to_json).collect()),
        serde_json::Value::Object(m) => JsonValue::Object(m.iter().map(|(k, v)| (k.clone(), to_json(v))).collect()),
    }
}

fn j(text: &str) -> JsonValue {
    to_json(&serde_json::from_str(text).unwrap())
}

fn intent(command: &str, form: &str) -> CommandIntent {
    CommandIntent::new(command, j(form))
}

fn dispatch(command: &str, form: &str, version: GiveVersion) -> DispatchResult {
    dispatch_intent(intent(command, form), version, &cats(), &mut 0)
}

#[test]
fn say_intent_dispatches() {
    let r = dispatch("say", r#"{"message": "hi"}"#, MODERN);
    assert_eq!(r.command.as_deref(), Some("say hi"));
    assert_eq!(r.error, None);
}

#[test]
fn give_intent_reuses_existing_give_builder() {
    let r = dispatch("give", r#"{"item": "minecraft:mace", "target": "@s", "count": 1}"#, MODERN);
    assert_eq!(r.command.as_deref(), Some("give @s minecraft:mace 1"));
}

#[test]
fn version_injected_by_dispatcher_legacy_attributes() {
    let r = dispatch("summon", r#"{"entityType": "zombie", "attributes": [{"id": "max_health", "base": 40}]}"#, MID);
    assert_eq!(
        r.command.as_deref(),
        Some(r#"summon minecraft:zombie ~ ~ ~ {Attributes:[{Name:"minecraft:generic.max_health",Base:40d}]}"#)
    );
}

#[test]
fn illegal_intent_is_captured_not_thrown() {
    let r = dispatch("execute", r#"{"subcommands": []}"#, MODERN);
    assert_eq!(r.command, None);
    assert!(r.error.as_deref().is_some_and(|s| !s.is_empty()));
}

#[test]
fn batch_dispatch_keeps_order_and_length_and_isolates_failures() {
    let results = dispatch_intents(
        vec![
            intent("say", r#"{"message": "a"}"#),
            intent("execute", r#"{"subcommands": []}"#),
            intent("enchant", r#"{"targets": "@s", "enchantment": "sharpness"}"#),
        ],
        MODERN,
        &cats(),
        &mut 0,
    );
    assert_eq!(results.len(), 3);
    assert_eq!(results[2].command.as_deref(), Some("enchant @s minecraft:sharpness"));
}

#[test]
fn particle_intent_dispatches() {
    let r = dispatch("particle", r#"{"name": "flame", "count": 5}"#, MODERN);
    assert_eq!(r.command.as_deref(), Some("particle minecraft:flame ~ ~ ~ 0 0 0 1 5"));
}

#[test]
fn execute_loop_true_propagates_to_dispatch_result() {
    let looped = dispatch(
        "execute",
        r#"{"subcommands": ["at @e[type=minecraft:arrow]"], "run": "kill @s", "loop": true}"#,
        MODERN,
    );
    assert_eq!(looped.repeat, true);

    let not_looped = dispatch("execute", r#"{"subcommands": ["at @s"], "run": "say hi"}"#, MODERN);
    assert_eq!(not_looped.repeat, false);

    let give_result = dispatch("give", r#"{"item": "minecraft:stone"}"#, MODERN);
    assert_eq!(give_result.repeat, false);
}

#[test]
fn unknown_command_produces_readable_error() {
    let r = dispatch("no_such_thing", "{}", MODERN);
    assert_eq!(r.error.as_deref(), Some(r#"未知指令类型: "no_such_thing""#));
}

#[test]
fn fabricated_item_is_blocked() {
    let fake = dispatch("give", r#"{"item": "minecraft:super_death_sword"}"#, MODERN);
    assert_eq!(fake.command, None);
    assert!(fake.error.as_deref().unwrap().contains("super_death_sword"));

    let real = dispatch("give", r#"{"item": "minecraft:diamond_sword", "target": "@s"}"#, MODERN);
    assert_eq!(real.command.as_deref(), Some("give @s minecraft:diamond_sword 1"));

    let bare_real = dispatch("give", r#"{"item": "diamond_sword", "target": "@s"}"#, MODERN);
    assert_eq!(bare_real.command.as_deref(), Some("give @s minecraft:diamond_sword 1"));

    let fake_enchant = dispatch(
        "give",
        r#"{"item": "minecraft:bow", "enchantments": [{"id": "minecraft:super_power", "level": 1}]}"#,
        MODERN,
    );
    assert_eq!(fake_enchant.command, None);
}

#[test]
fn fabricated_block_is_blocked() {
    let fake_block = dispatch("setblock", r#"{"x": "0", "y": "0", "z": "0", "block": "minecraft:fake_ore"}"#, MODERN);
    assert_eq!(fake_block.command, None);

    let real_block =
        dispatch("fill", r#"{"from": ["0", "0", "0"], "to": ["1", "1", "1"], "block": "stone"}"#, MODERN);
    assert!(real_block.command.as_deref().unwrap().contains("minecraft:stone"));
}

#[test]
fn fabricated_effect_attribute_enchant_are_blocked() {
    let fake_effect = dispatch("effect_give", r#"{"target": "@s", "effect": "minecraft:super_buff"}"#, MODERN);
    assert_eq!(fake_effect.command, None);

    let fake_attr = dispatch(
        "attribute",
        r#"{"target": "@s", "attribute": "minecraft:luckiness", "action": {"kind": "base_set", "value": 1}}"#,
        MODERN,
    );
    assert_eq!(fake_attr.command, None);

    let fake_enchant2 = dispatch("enchant", r#"{"targets": "@s", "enchantment": "minecraft:god_mode"}"#, MODERN);
    assert_eq!(fake_enchant2.command, None);
}

#[test]
fn summon_format_and_catalog_checks() {
    let real_entity = dispatch("summon", r#"{"entityType": "zombie"}"#, MODERN);
    assert_eq!(real_entity.command.as_deref(), Some("summon minecraft:zombie"));

    let bad_format = dispatch("summon", r#"{"entityType": "not a valid id!!"}"#, MODERN);
    assert_eq!(bad_format.command, None);

    let fake_summon_effect = dispatch(
        "summon",
        r#"{"entityType": "zombie", "effects": [{"id": "minecraft:super_regen", "duration": 100}]}"#,
        MODERN,
    );
    assert_eq!(fake_summon_effect.command, None);

    let fake_equip =
        dispatch("summon", r#"{"entityType": "zombie", "equipment": {"mainhand": {"id": "minecraft:excalibur"}}}"#, MODERN);
    assert_eq!(fake_equip.command, None);

    let real_equip = dispatch(
        "summon",
        r#"{"entityType": "zombie", "equipment": {"mainhand": {"id": "minecraft:diamond_sword"}}}"#,
        MODERN,
    );
    assert!(real_equip.command.as_deref().unwrap().contains("minecraft:diamond_sword"));
}

#[test]
fn effect_clear_now_validated_like_effect_give() {
    let blocked = dispatch("effect_clear", r#"{"target": "@s", "effect": "minecraft:super_buff"}"#, MODERN);
    assert_eq!(blocked.command, None);

    let real_effect = dispatch("effect_clear", r#"{"target": "@s", "effect": "minecraft:speed"}"#, MODERN);
    assert!(real_effect.command.is_some());

    let omitted_effect = dispatch("effect_clear", r#"{"target": "@s"}"#, MODERN);
    assert!(omitted_effect.command.is_some());
}

#[test]
fn summon_passengers_validated() {
    let blocked =
        dispatch("summon", r#"{"entityType": "zombie", "passengers": [{"entityType": "minecraft:dragon_lord"}]}"#, MODERN);
    assert_eq!(blocked.command, None);

    let real = dispatch("summon", r#"{"entityType": "pig", "passengers": [{"entityType": "chicken"}]}"#, MODERN);
    assert!(real.command.is_some());
}

#[test]
fn setblock_container_items_validated() {
    let blocked = dispatch(
        "setblock",
        r#"{"x": "0", "y": "0", "z": "0", "block": "chest",
            "containerItems": [{"slot": 0, "item": {"id": "minecraft:excalibur"}}]}"#,
        MODERN,
    );
    assert_eq!(blocked.command, None);

    let real = dispatch(
        "setblock",
        r#"{"x": "0", "y": "0", "z": "0", "block": "chest",
            "containerItems": [{"slot": 0, "item": {"id": "diamond", "count": 5}}]}"#,
        MODERN,
    );
    assert!(real.command.is_some());
}

#[test]
fn fill_and_clone_filter_blocks_validated() {
    let blocked = dispatch(
        "fill",
        r#"{"from": ["0", "0", "0"], "to": ["1", "1", "1"], "block": "stone",
            "replaceFilter": {"block": "minecraft:fakeore"}}"#,
        MODERN,
    );
    assert_eq!(blocked.command, None);

    let real = dispatch(
        "fill",
        r#"{"from": ["0", "0", "0"], "to": ["1", "1", "1"], "block": "air",
            "replaceFilter": {"block": "water"}}"#,
        MODERN,
    );
    assert!(real.command.is_some());

    let clone_blocked = dispatch(
        "clone",
        r#"{"begin": ["0", "0", "0"], "end": ["1", "1", "1"], "destination": ["5", "5", "5"],
            "maskMode": "filtered", "filter": {"block": "minecraft:fakeore"}}"#,
        MODERN,
    );
    assert_eq!(clone_blocked.command, None);
}

#[test]
fn scoreboard_criteria_item_backed_validated() {
    let crit = |criteria: &str| {
        let form = format!(r#"{{"action": {{"kind": "objectives_add", "objective": "x", "criteria": "{criteria}"}}}}"#);
        dispatch("scoreboard", &form, MODERN)
    };
    assert_eq!(crit("minecraft.used:minecraft.magic_wand").command, None);
    assert!(crit("minecraft.used:minecraft.fishing_rod").command.is_some());
    assert!(crit("minecraft.custom:minecraft.sneak_time").command.is_some());
    assert!(crit("dummy").command.is_some());
}

#[test]
fn particle_catalog_validation() {
    let p = |name: &str| {
        let form = format!(r#"{{"name": {}, "count": 5}}"#, serde_json::to_string(name).unwrap());
        dispatch("particle", &form, MODERN)
    };

    assert_eq!(p("minecraft:sparkle_magic").command, None);
    assert_eq!(p("minecraft:flame").command.as_deref(), Some("particle minecraft:flame ~ ~ ~ 0 0 0 1 5"));
    assert_eq!(p("flame").command.as_deref(), Some("particle minecraft:flame ~ ~ ~ 0 0 0 1 5"));

    assert_eq!(
        p("minecraft:dust{color:[1.0,0.2,0.2],scale:1.5}").command.as_deref(),
        Some("particle minecraft:dust{color:[1.0,0.2,0.2],scale:1.5} ~ ~ ~ 0 0 0 1 5")
    );
    assert!(p(r#"minecraft:block{block_state:{Name:"minecraft:stone"}}"#).command.is_some());
    assert_eq!(p("minecraft:fakedust{color:[1,0,0]}").command, None);
}

#[test]
fn catalog_validation_is_version_aware() {
    let web = dispatch("give", r#"{"item": "minecraft:web"}"#, BEDROCK);
    assert_eq!(web.command.as_deref(), Some("give @a web 1 0"));

    let cobweb_on_bedrock = dispatch("give", r#"{"item": "minecraft:cobweb"}"#, BEDROCK);
    assert_eq!(cobweb_on_bedrock.command, None);

    let bedrock_only = dispatch("give", r#"{"item": "minecraft:border_block"}"#, BEDROCK);
    assert_eq!(bedrock_only.command.as_deref(), Some("give @a border_block 1 0"));

    let cobweb_on_java = dispatch("give", r#"{"item": "minecraft:cobweb"}"#, MODERN);
    assert_eq!(cobweb_on_java.command.as_deref(), Some("give @a minecraft:cobweb 1"));

    let web_on_java = dispatch("give", r#"{"item": "minecraft:web"}"#, MODERN);
    assert_eq!(web_on_java.command, None);

    for version in [MODERN, BEDROCK] {
        let fake = dispatch("give", r#"{"item": "minecraft:excalibur_of_doom"}"#, version);
        assert_eq!(fake.command, None);
    }
}

#[test]
fn end_to_end_exploding_arrow() {
    let results = dispatch_intents(
        vec![
            intent("give", r#"{"item": "minecraft:bow", "count": 1, "enchantments": [{"id": "minecraft:power", "level": 5}]}"#),
            intent(
                "execute",
                r#"{"subcommands": ["at @e[type=minecraft:arrow,nbt={inGround:1b}]"],
                    "run": "summon minecraft:tnt ~ ~ ~ {fuse:0s}"}"#,
            ),
        ],
        MODERN,
        &cats(),
        &mut 0,
    );
    assert_eq!(results[0].command.as_deref(), Some("give @a minecraft:bow[enchantments={power:5}] 1"));
    assert_eq!(
        results[1].command.as_deref(),
        Some("execute at @e[type=minecraft:arrow,nbt={inGround:1b}] run summon minecraft:tnt ~ ~ ~ {fuse:0s}")
    );
}

#[test]
fn end_to_end_landmine_command_block() {
    let r = dispatch(
        "setblock",
        r#"{"x": "~", "y": "~", "z": "~", "block": "repeating_command_block",
            "commandBlock": {
                "command": "execute at @e[type=minecraft:item,nbt={OnGround:1b,Item:{id:\"minecraft:tnt\"}}] run summon minecraft:tnt ~ ~ ~ {fuse:0s}",
                "auto": true
            }}"#,
        MODERN,
    );
    assert_eq!(
        r.command.as_deref(),
        Some(
            r#"setblock ~ ~ ~ minecraft:repeating_command_block{Command:"execute at @e[type=minecraft:item,nbt={OnGround:1b,Item:{id:\"minecraft:tnt\"}}] run summon minecraft:tnt ~ ~ ~ {fuse:0s}",auto:1b}"#
        )
    );
}

#[test]
fn end_to_end_custom_data_marked_arrow() {
    let results = dispatch_intents(
        vec![
            intent("give", r#"{"item": "minecraft:bow", "count": 1}"#),
            intent("give", r#"{"item": "minecraft:arrow", "count": 16, "customData": "{soul_tnt_arrow:1b}"}"#),
            intent(
                "execute",
                r#"{"subcommands": ["at @e[type=minecraft:arrow,nbt={inGround:1b,data:{soul_tnt_arrow:1b}}]"],
                    "run": "summon minecraft:tnt ~ ~ ~ {fuse:0s}"}"#,
            ),
        ],
        MODERN,
        &cats(),
        &mut 0,
    );
    assert_eq!(results[0].command.as_deref(), Some("give @a minecraft:bow 1"));
    assert_eq!(results[1].command.as_deref(), Some("give @a minecraft:arrow[custom_data={soul_tnt_arrow:1b}] 16"));
    assert_eq!(
        results[2].command.as_deref(),
        Some("execute at @e[type=minecraft:arrow,nbt={inGround:1b,data:{soul_tnt_arrow:1b}}] run summon minecraft:tnt ~ ~ ~ {fuse:0s}")
    );
}

#[test]
fn end_to_end_zombie_with_health_attribute_and_enchanted_equipment() {
    let results = dispatch_intents(
        vec![intent(
            "summon",
            r#"{"entityType": "minecraft:zombie", "noAI": true, "health": 40,
                "attributes": [{"id": "max_health", "base": 40}],
                "equipment": {"mainhand": {"id": "minecraft:diamond_sword", "enchantments": [{"id": "minecraft:sharpness", "level": 5}]}}}"#,
        )],
        MODERN,
        &cats(),
        &mut 0,
    );
    assert_eq!(
        results[0].command.as_deref(),
        Some(
            r#"summon minecraft:zombie ~ ~ ~ {NoAI:1b,Health:40f,attributes:[{id:"minecraft:max_health",base:40d}],equipment:{mainhand:{id:"minecraft:diamond_sword",count:1,components:{"minecraft:enchantments":{sharpness:5}}}}}"#
        )
    );
}

#[test]
fn intent_new_keeps_the_name_and_form() {
    let i = intent("say", r#"{"message": "x"}"#);
    assert_eq!(i.command_name(), "say");
    assert!(matches!(i, CommandIntent::Say(_)));
    let u = intent("teleport_everyone", "{}");
    assert_eq!(u.command_name(), "teleport_everyone");
    assert!(matches!(u, CommandIntent::Unknown(_, _)));
    assert!(matches!(u.form(), JsonValue::Object(ms) if ms.is_empty()));
}

#[test]
fn refused_intent_keeps_its_message_and_never_repeats() {
    let r = dispatch("execute", r#"{"subcommands": ["at @s"], "run": "say hi", "loop": true}"#, MODERN);
    assert!(r.repeat);
    let r = dispatch("effect_give", r#"{"target": "@s", "effect": "minecraft:nope"}"#, MODERN);
    assert_eq!(r.command, None);
    assert_eq!(r.error.as_deref(), Some(r#"药水效果 "minecraft:nope" 不在官方目录里，疑似 AI 编造，已拦截"#));
    assert!(!r.repeat);
}

#[test]
fn scoreboard_and_attribute_unknown_kinds_are_errors() {
    let r = dispatch("scoreboard", r#"{"action": {"kind": "explode"}}"#, MODERN);
    assert_eq!(r.command, None);
    assert_eq!(r.error.as_deref(), Some(r#"未知 scoreboard 动作: {"kind":"explode"}"#));
    let r = dispatch("attribute", r#"{"target": "@s", "attribute": "armor", "action": {}}"#, MODERN);
    assert_eq!(r.error.as_deref(), Some(r#"未知 attribute 动作: {"kind":""}"#));
}

#[test]
fn scoreboard_and_attribute_actions_dispatch() {
    let r = dispatch(
        "scoreboard",
        r#"{"action": {"kind": "players_operation", "targets": "@s", "objective": "a", "operation": "><", "source": "@p", "sourceObjective": "b"}}"#,
        MODERN,
    );
    assert_eq!(r.command.as_deref(), Some("scoreboard players operation @s a >< @p b"));
    let r = dispatch(
        "attribute",
        r#"{"target": "@s", "attribute": "armor", "withSlash": true, "action": {"kind": "modifier_add", "id": "buff", "value": 2.5, "operation": "multiply_base"}}"#,
        MODERN,
    );
    assert_eq!(r.command.as_deref(), Some("/attribute @s minecraft:armor modifier add minecraft:buff 2.5 add_multiplied_base"));
}

#[test]
fn tp_fill_clone_and_effect_forms_are_read_loosely() {
    let r = dispatch("tp", r#"{"targets": "@s", "destination": "@p"}"#, MODERN);
    assert_eq!(r.command.as_deref(), Some("tp @s @p"));
    let r = dispatch("tp", r#"{"targets": "@s", "x": "1", "y": "2", "z": "3", "useTeleportAlias": 1}"#, MODERN);
    assert_eq!(r.command.as_deref(), Some("teleport @s 1 2 3"));
    let r = dispatch("effect_give", r#"{"target": "@a", "effect": "speed", "duration": "infinite", "amplifier": 1.5}"#, MODERN);
    assert_eq!(r.command.as_deref(), Some("effect give @a minecraft:speed infinite 2"));
    let r = dispatch("clone", r#"{"begin": ["0", "0", "0"], "end": ["1", "1"], "destination": ["5", "5", "5"], "cloneMode": "move"}"#, MODERN);
    assert_eq!(r.command.as_deref(), Some("clone 0 0 0 1 1  5 5 5 replace move"));
}
