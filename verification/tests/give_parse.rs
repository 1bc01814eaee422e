use soul_lantern::give::builder::GiveVersion;
use soul_lantern::give::catalog::GiveCatalogs;
use soul_lantern::give::dispatch::dispatch_intents;
use soul_lantern::give::json::JsonValue;
use soul_lantern::give::number::{parse_number, Decimal, NumberText};
use soul_lantern::give::parse::{parse_ai_content, strip_code_fence, ParsedAi};

const MODERN: GiveVersion = GiveVersion::Java1_21_5;

const ITEMS: &[(&str, &str)] = &[("minecraft:bow", "弓"), ("minecraft:arrow", "箭"), ("minecraft:diamond_sword", "钻石剑")];
const ENTITIES: &[(&str, &str)] = &[("minecraft:zombie", "僵尸")];
const ENCHANTS: &[(&str, &str)] = &[("minecraft:power", "力量"), ("minecraft:sharpness", "锋利")];
const NONE: &[(&str, &str)] = &[];

fn cats() -> GiveCatalogs {
    GiveCatalogs {
        items: ITEMS,
        blocks: NONE,
        entities: ENTITIES,
        bedrock_items: NONE,
        bedrock_blocks: NONE,
        bedrock_entities: NONE,
        enchants: ENCHANTS,
        effects: NONE,
        attributes: &[("minecraft:max_health", "最大生命值")],
        particles: NONE,
    }
}

fn to_json(v: &serde_json::Value) -> JsonValue {
    match v {
        serde_json::Value::Null => JsonValue::Null,
        serde_json::Value::Bool(b) => JsonValue::Bool(*b),
        serde_json::Value::Number(n) => JsonValue::Number(match n.as_i64() {
            Some(i) => Decimal::whole(i),
            None => match parse_number(&n.to_string()) {
                Some(NumberText::Finite(d)) => d,
                _ => Decimal::whole(0),
            },
        }),
        serde_json::Value::String(s) => JsonValue::String(s.clone()),
        serde_json::Value::Array(a) => JsonValue::Array(a.iter().map(to_json).collect()),
        serde_json::Value::Object(m) => JsonValue::Object(m.iter().map(|(k, v)| (k.clone(), to_json(v))).collect()),
    }
}

fn parse(content: &str) -> Result<ParsedAi, String> {
    let text = strip_code_fence(content);
    let doc = serde_json::from_str::<serde_json::Value>(&text).ok().map(|v| to_json(&v));
    parse_ai_content(&text, doc)
}

fn member<'a>(v: &'a JsonValue, key: &str) -> Option<&'a JsonValue> {
    match v {
        JsonValue::Object(ms) => ms.iter().find(|(k, _)| k == key).map(|(_, v)| v),
        _ => None,
    }
}

#[test]
fn parses_intents_and_explanation() {
    let r = parse(r#"{"intents":[{"command":"say","form":{"message":"hi"}}],"explanation":"打个招呼"}"#).unwrap();
    assert_eq!(r.intents.len(), 1);
    assert_eq!(r.explanation, "打个招呼");
}

#[test]
fn tolerates_json_code_fence() {
    let r = parse("```json\n{\"intents\":[],\"explanation\":\"x\"}\n```").unwrap();
    assert_eq!(r.explanation, "x");
}

#[test]
fn explanation_misplaced_in_intents_array_is_filtered_and_recovered() {
    let r = parse(r#"{"intents":[{"command":"say","form":{"message":"hi"}},{"explanation":"这是解释"}],"explanation":""}"#)
        .unwrap();
    assert_eq!(r.intents.len(), 1);
    assert_eq!(r.explanation, "这是解释");
}

#[test]
fn top_level_explanation_takes_priority() {
    let r = parse(r#"{"intents":[{"explanation":"数组里的"}],"explanation":"顶层的"}"#).unwrap();
    assert_eq!(r.explanation, "顶层的");
    assert_eq!(r.intents.len(), 0);
}

#[test]
fn missing_form_wrapper_is_recovered_and_dispatches_correctly() {
    let payload = r#"{
        "intents": [
            { "command": "give", "item": "minecraft:bow", "count": 1 },
            { "command": "execute", "subcommands": ["at @e[type=minecraft:arrow]"], "run": "kill @s", "loop": true }
        ],
        "explanation": "x"
    }"#;
    let r = parse(payload).unwrap();
    assert_eq!(r.intents.len(), 2);
    assert!(matches!(member(r.intents[0].form(), "item"), Some(JsonValue::String(s)) if s == "minecraft:bow"));
    assert!(matches!(member(r.intents[1].form(), "subcommands"), Some(JsonValue::Array(a)) if a.len() == 1));
    assert!(matches!(member(r.intents[1].form(), "loop"), Some(JsonValue::Bool(true))));
    assert!(member(r.intents[1].form(), "command").is_none());

    let results = dispatch_intents(r.intents, MODERN, &cats(), &mut 0);
    assert_eq!(results[0].command.as_deref(), Some("give @a minecraft:bow 1"));
    assert_eq!(results[1].command.as_deref(), Some("execute at @e[type=minecraft:arrow] run kill @s"));
}

#[test]
fn existing_form_wrapper_is_preserved_untouched() {
    let r = parse(r#"{ "intents": [{ "command": "say", "form": { "message": "hi" } }], "explanation": "x" }"#).unwrap();
    assert!(matches!(member(r.intents[0].form(), "message"), Some(JsonValue::String(s)) if s == "hi"));
}

#[test]
fn non_json_is_an_error() {
    assert!(parse("对不起，我做不到").is_err());
}

#[test]
fn missing_intents_array_is_an_error() {
    assert!(parse(r#"{"explanation":"x"}"#).is_err());
}

#[test]
fn end_to_end_explosive_arrow_and_landmine() {
    let payload = r#"{
        "intents": [
            { "command": "give", "form": { "item": "minecraft:bow", "count": 1, "enchantments": [{ "id": "minecraft:power", "level": 5 }] } },
            {
                "command": "execute",
                "form": {
                    "subcommands": ["at @e[type=minecraft:arrow,nbt={inGround:1b}]"],
                    "run": "summon minecraft:tnt ~ ~ ~ {fuse:0s}"
                }
            }
        ],
        "explanation": "把第二条放进循环命令方块"
    }"#;
    let ai = parse(payload).unwrap();
    let results = dispatch_intents(ai.intents, MODERN, &cats(), &mut 0);
    assert_eq!(results[0].command.as_deref(), Some("give @a minecraft:bow[enchantments={power:5}] 1"));
    assert_eq!(
        results[1].command.as_deref(),
        Some("execute at @e[type=minecraft:arrow,nbt={inGround:1b}] run summon minecraft:tnt ~ ~ ~ {fuse:0s}")
    );
}

#[test]
fn end_to_end_custom_data_arrow() {
    let payload = r#"{
        "intents": [
            { "command": "give", "form": { "item": "minecraft:bow", "count": 1 } },
            { "command": "give", "form": { "item": "minecraft:arrow", "count": 16, "customData": "{soul_tnt_arrow:1b}" } },
            {
                "command": "execute",
                "form": {
                    "subcommands": ["at @e[type=minecraft:arrow,nbt={inGround:1b,data:{soul_tnt_arrow:1b}}]"],
                    "run": "summon minecraft:tnt ~ ~ ~ {fuse:0s}"
                }
            }
        ],
        "explanation": "特制箭打了标记，只有这种箭落地才炸"
    }"#;
    let ai = parse(payload).unwrap();
    let results = dispatch_intents(ai.intents, MODERN, &cats(), &mut 0);
    assert_eq!(results[0].command.as_deref(), Some("give @a minecraft:bow 1"));
    assert_eq!(results[1].command.as_deref(), Some("give @a minecraft:arrow[custom_data={soul_tnt_arrow:1b}] 16"));
    assert_eq!(
        results[2].command.as_deref(),
        Some("execute at @e[type=minecraft:arrow,nbt={inGround:1b,data:{soul_tnt_arrow:1b}}] run summon minecraft:tnt ~ ~ ~ {fuse:0s}")
    );
}

#[test]
fn end_to_end_zombie_boss_with_health_and_equipment() {
    let payload = r#"{
        "intents": [
            {
                "command": "summon",
                "form": {
                    "entityType": "minecraft:zombie",
                    "noAI": true,
                    "health": 40,
                    "attributes": [{ "id": "max_health", "base": 40 }],
                    "equipment": {
                        "mainhand": { "id": "minecraft:diamond_sword", "enchantments": [{ "id": "minecraft:sharpness", "level": 5 }] }
                    }
                }
            }
        ],
        "explanation": "40 血用属性+当前值同时设置，剑的附魔走结构化字段"
    }"#;
    let ai = parse(payload).unwrap();
    let results = dispatch_intents(ai.intents, MODERN, &cats(), &mut 0);
    assert_eq!(
        results[0].command.as_deref(),
        Some(r#"summon minecraft:zombie ~ ~ ~ {NoAI:1b,Health:40f,attributes:[{id:"minecraft:max_health",base:40d}],equipment:{mainhand:{id:"minecraft:diamond_sword",count:1,components:{"minecraft:enchantments":{sharpness:5}}}}}"#)
    );
}

#[test]
fn code_fence_variants() {
    assert_eq!(strip_code_fence("  ```\n{\"a\":1}\n```  "), "{\"a\":1}");
    assert_eq!(strip_code_fence("```json \t\n  {}  \n\n```"), "{}");
    assert_eq!(strip_code_fence("```json {}```"), "```json {}```");
    assert_eq!(strip_code_fence("```json\n{}"), "```json\n{}");
    assert_eq!(strip_code_fence("  plain  "), "plain");
}

#[test]
fn not_json_error_quotes_the_first_200_characters() {
    let long = "字".repeat(250);
    let e = parse(&long).err().unwrap();
    assert_eq!(e, format!("无法解析 AI 返回的 JSON：{}", "字".repeat(200)));
    assert_eq!(parse(r#"{"intents": {}}"#).err().unwrap(), "AI 返回缺少 intents 数组。");
}

#[test]
fn unknown_commands_and_non_objects_are_skipped() {
    let r = parse(r#"{"intents":[1, "x", {"command":"nuke","explanation":"e1"}, {"command":"say","form":[1]}],"explanation":""}"#)
        .unwrap();
    assert_eq!(r.intents.len(), 1);
    assert_eq!(r.intents[0].command_name(), "say");
    assert!(matches!(r.intents[0].form(), JsonValue::Object(ms) if ms.len() == 1));
    assert_eq!(r.explanation, "e1");
}
