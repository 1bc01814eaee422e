use soul_lantern::give::builder::GiveVersion;
use soul_lantern::give::commands::clone::{build_clone_command, CloneForm, CloneMaskMode, CloneMode};
use soul_lantern::give::commands::effect::{
    build_effect_clear_command, build_effect_give_command, EffectClearForm, EffectDuration, EffectGiveForm,
};
use soul_lantern::give::commands::enchant::{build_enchant_command, EnchantForm};
use soul_lantern::give::commands::execute::sub;
use soul_lantern::give::commands::execute::{build_execute_command, ExecuteForm};
use soul_lantern::give::commands::fill::{build_fill_command, BlockFilter, Coords, FillForm, FillMode};
use soul_lantern::give::commands::nbt::{
    normalize_attribute_id, serialize_container_item, serialize_effects, serialize_equipment, serialize_item,
    NbtEffect, NbtEnchantment, NbtEquipment, NbtItem,
};
use soul_lantern::give::commands::say::{build_say_command, SayForm};
use soul_lantern::give::commands::scoreboard::{
    build_scoreboard_command, RenderType, ScoreboardAction, ScoreboardForm, ScoreboardOperation,
};
use soul_lantern::give::commands::setblock::{
    build_setblock_command, ContainerSlot, SetblockCommandBlockOptions, SetblockForm, SetblockMode, SetblockNbt,
};
use soul_lantern::give::commands::tp::{build_tp_command, TpCoordsForm, TpEntityForm, TpForm};

fn c(x: &str, y: &str, z: &str) -> Coords {
    [x.to_string(), y.to_string(), z.to_string()]
}

#[test]
fn say_basic() {
    let form = SayForm { with_slash: false, message: "hello world".to_string() };
    assert_eq!(build_say_command(&form), "say hello world");
}

#[test]
fn say_with_slash() {
    let form = SayForm { with_slash: true, message: "hi".to_string() };
    assert_eq!(build_say_command(&form), "/say hi");
}

#[test]
fn no_level() {
    let form = EnchantForm { targets: "@s".to_string(), enchantment: "sharpness".to_string(), ..Default::default() };
    assert_eq!(build_enchant_command(&form), "enchant @s minecraft:sharpness");
}

#[test]
fn with_level() {
    let form = EnchantForm {
        targets: "@s".to_string(),
        enchantment: "minecraft:unbreaking".to_string(),
        level: Some(3),
        ..Default::default()
    };
    assert_eq!(build_enchant_command(&form), "enchant @s minecraft:unbreaking 3");
}

#[test]
fn give_effect_only() {
    let form = EffectGiveForm { target: "@a".to_string(), effect: "speed".to_string(), ..Default::default() };
    assert_eq!(build_effect_give_command(&form), "effect give @a minecraft:speed");
}

#[test]
fn give_with_duration() {
    let form = EffectGiveForm {
        target: "@a".to_string(),
        effect: "speed".to_string(),
        duration: Some(EffectDuration::Seconds(30)),
        ..Default::default()
    };
    assert_eq!(build_effect_give_command(&form), "effect give @a minecraft:speed 30");
}

#[test]
fn give_with_amplifier_duration_defaulted() {
    let form = EffectGiveForm {
        target: "@a".to_string(),
        effect: "speed".to_string(),
        amplifier: Some(2),
        ..Default::default()
    };
    assert_eq!(build_effect_give_command(&form), "effect give @a minecraft:speed 30 2");
}

#[test]
fn give_with_hide_particles_all_leading_defaulted() {
    let form = EffectGiveForm {
        target: "@a".to_string(),
        effect: "speed".to_string(),
        hide_particles: Some(true),
        ..Default::default()
    };
    assert_eq!(build_effect_give_command(&form), "effect give @a minecraft:speed 30 0 true");
}

#[test]
fn give_infinite() {
    let form = EffectGiveForm {
        target: "@a".to_string(),
        effect: "speed".to_string(),
        duration: Some(EffectDuration::Infinite),
        amplifier: Some(1),
        ..Default::default()
    };
    assert_eq!(build_effect_give_command(&form), "effect give @a minecraft:speed infinite 1");
}

#[test]
fn clear_all() {
    let form = EffectClearForm { target: "@a".to_string(), ..Default::default() };
    assert_eq!(build_effect_clear_command(&form), "effect clear @a");
}

#[test]
fn clear_specific() {
    let form = EffectClearForm {
        target: "@a".to_string(),
        effect: Some("minecraft:speed".to_string()),
        ..Default::default()
    };
    assert_eq!(build_effect_clear_command(&form), "effect clear @a minecraft:speed");
}

#[test]
fn absolute_coords() {
    let form = TpForm::Coords(coords("@s", "0", "64", "0"));
    assert_eq!(build_tp_command(&form), "tp @s 0 64 0");
}

fn coords(targets: &str, x: &str, y: &str, z: &str) -> TpCoordsForm {
    TpCoordsForm {
        targets: targets.to_string(),
        x: x.to_string(),
        y: y.to_string(),
        z: z.to_string(),
        ..Default::default()
    }
}

#[test]
fn relative_coords() {
    let form = TpForm::Coords(coords("@s", "~", "~", "~"));
    assert_eq!(build_tp_command(&form), "tp @s ~ ~ ~");
}

#[test]
fn local_coords() {
    let form = TpForm::Coords(coords("@s", "^", "^", "^1"));
    assert_eq!(build_tp_command(&form), "tp @s ^ ^ ^1");
}

#[test]
fn rotation() {
    let mut c = coords("@s", "0", "64", "0");
    c.y_rot = Some("90".to_string());
    c.x_rot = Some("45".to_string());
    assert_eq!(build_tp_command(&TpForm::Coords(c)), "tp @s 0 64 0 90 45");
}

#[test]
fn facing_overrides_rotation() {
    let mut c = coords("@s", "0", "64", "0");
    c.y_rot = Some("90".to_string());
    c.x_rot = Some("45".to_string());
    c.facing_x = Some("10".to_string());
    c.facing_y = Some("70".to_string());
    c.facing_z = Some("10".to_string());
    assert_eq!(build_tp_command(&TpForm::Coords(c)), "tp @s 0 64 0 facing 10 70 10");
}

#[test]
fn teleport_to_entity() {
    let form = TpForm::Entity(TpEntityForm {
        targets: "@s".to_string(),
        destination: "@e[type=pig,limit=1]".to_string(),
        ..Default::default()
    });
    assert_eq!(build_tp_command(&form), "tp @s @e[type=pig,limit=1]");
}

#[test]
fn teleport_alias() {
    let mut c = coords("@s", "0", "64", "0");
    c.use_teleport_alias = true;
    assert_eq!(build_tp_command(&TpForm::Coords(c)), "teleport @s 0 64 0");
}

#[test]
fn fill_basic() {
    let form = FillForm { from: c("0", "64", "0"), to: c("10", "70", "10"), block: "stone".to_string(), ..Default::default() };
    assert_eq!(build_fill_command(&form), "fill 0 64 0 10 70 10 minecraft:stone");
}

#[test]
fn hollow_mode() {
    let form = FillForm {
        from: c("~", "~", "~"),
        to: c("~5", "~5", "~5"),
        block: "glass".to_string(),
        mode: Some(FillMode::Hollow),
        ..Default::default()
    };
    assert_eq!(build_fill_command(&form), "fill ~ ~ ~ ~5 ~5 ~5 minecraft:glass hollow");
}

#[test]
fn replace_filter_block() {
    let form = FillForm {
        from: c("0", "64", "0"),
        to: c("10", "70", "10"),
        block: "air".to_string(),
        replace_filter: Some(BlockFilter { block: "water".to_string(), blockstate: None }),
        ..Default::default()
    };
    assert_eq!(build_fill_command(&form), "fill 0 64 0 10 70 10 minecraft:air replace minecraft:water");
}

#[test]
fn blockstate_and_nbt_touching_block_id() {
    let form = FillForm {
        from: c("~", "~", "~"),
        to: c("~", "~", "~"),
        block: "command_block".to_string(),
        blockstate: Some("facing=up".to_string()),
        nbt: Some(r#"{Command:"say hi"}"#.to_string()),
        ..Default::default()
    };
    assert_eq!(
        build_fill_command(&form),
        r#"fill ~ ~ ~ ~ ~ ~ minecraft:command_block[facing=up]{Command:"say hi"}"#
    );
}

#[test]
fn clone_basic() {
    let form = CloneForm {
        begin: c("0", "64", "0"),
        end: c("10", "70", "10"),
        destination: c("20", "64", "20"),
        ..Default::default()
    };
    assert_eq!(build_clone_command(&form).unwrap(), "clone 0 64 0 10 70 10 20 64 20");
}

#[test]
fn cross_dimension() {
    let form = CloneForm {
        from_dimension: Some("the_nether".to_string()),
        begin: c("0", "64", "0"),
        end: c("10", "70", "10"),
        to_dimension: Some("overworld".to_string()),
        destination: c("20", "64", "20"),
        ..Default::default()
    };
    assert_eq!(
        build_clone_command(&form).unwrap(),
        "clone from minecraft:the_nether 0 64 0 10 70 10 to minecraft:overworld 20 64 20"
    );
}

#[test]
fn filtered_with_filter_block() {
    let form = CloneForm {
        begin: c("0", "64", "0"),
        end: c("10", "70", "10"),
        destination: c("20", "64", "20"),
        mask_mode: Some(CloneMaskMode::Filtered),
        filter: Some(BlockFilter { block: "stone".to_string(), blockstate: None }),
        ..Default::default()
    };
    assert_eq!(build_clone_command(&form).unwrap(), "clone 0 64 0 10 70 10 20 64 20 filtered minecraft:stone");
}

#[test]
fn move_mode_defaults_replace() {
    let form = CloneForm {
        begin: c("0", "64", "0"),
        end: c("10", "70", "10"),
        destination: c("20", "64", "20"),
        clone_mode: Some(CloneMode::Move),
        ..Default::default()
    };
    assert_eq!(build_clone_command(&form).unwrap(), "clone 0 64 0 10 70 10 20 64 20 replace move");
}

#[test]
fn filtered_without_filter_errors() {
    let form = CloneForm {
        begin: c("0", "64", "0"),
        end: c("10", "70", "10"),
        destination: c("20", "64", "20"),
        mask_mode: Some(CloneMaskMode::Filtered),
        ..Default::default()
    };
    assert!(build_clone_command(&form).is_err());
}

#[test]
fn as_at_run() {
    let form = ExecuteForm {
        subcommands: vec![sub::as_selector("@a"), sub::at("@s")],
        run: Some("say hi".to_string()),
        ..Default::default()
    };
    assert_eq!(build_execute_command(&form).unwrap(), "execute as @a at @s run say hi");
}

#[test]
fn run_leading_slash_stripped() {
    let form = ExecuteForm {
        subcommands: vec![sub::at("@s")],
        run: Some("/summon minecraft:tnt ~ ~ ~".to_string()),
        ..Default::default()
    };
    assert_eq!(build_execute_command(&form).unwrap(), "execute at @s run summon minecraft:tnt ~ ~ ~");
}

#[test]
fn pure_condition_no_run_ends_with_if() {
    let form = ExecuteForm { subcommands: vec![sub::if_entity("@e[type=pig]")], ..Default::default() };
    assert_eq!(build_execute_command(&form).unwrap(), "execute if entity @e[type=pig]");
}

#[test]
fn arrow_ground_detection() {
    let form = ExecuteForm {
        subcommands: vec![sub::at("@e[type=arrow,nbt={inGround:1b}]")],
        run: Some("summon tnt ~ ~ ~".to_string()),
        ..Default::default()
    };
    assert_eq!(
        build_execute_command(&form).unwrap(),
        "execute at @e[type=arrow,nbt={inGround:1b}] run summon tnt ~ ~ ~"
    );
}

#[test]
fn no_subcommands_errors() {
    let form = ExecuteForm { subcommands: vec![], ..Default::default() };
    assert!(build_execute_command(&form).is_err());
}

#[test]
fn no_run_not_ending_if_unless_errors() {
    let form = ExecuteForm { subcommands: vec![sub::as_selector("@a")], ..Default::default() };
    assert!(build_execute_command(&form).is_err());
}

const MODERN: GiveVersion = GiveVersion::Java1_21_5;

fn base(block: &str) -> SetblockForm {
    SetblockForm {
        version: MODERN,
        with_slash: false,
        x: "~".to_string(),
        y: "~".to_string(),
        z: "~".to_string(),
        block: block.to_string(),
        blockstate: None,
        mode: None,
        nbt: SetblockNbt::Empty,
    }
}

#[test]
fn setblock_basic() {
    assert_eq!(build_setblock_command(&base("stone")), "setblock ~ ~ ~ minecraft:stone");
}

#[test]
fn blockstate() {
    let mut f = base("oak_log");
    f.blockstate = Some("axis=x".to_string());
    assert_eq!(build_setblock_command(&f), "setblock ~ ~ ~ minecraft:oak_log[axis=x]");
}

#[test]
fn keep_mode() {
    let mut f = base("stone");
    f.mode = Some(SetblockMode::Keep);
    assert_eq!(build_setblock_command(&f), "setblock ~ ~ ~ minecraft:stone keep");
}

#[test]
fn replace_is_default_not_emitted() {
    let mut f = base("stone");
    f.mode = Some(SetblockMode::Replace);
    assert_eq!(build_setblock_command(&f), "setblock ~ ~ ~ minecraft:stone");
}

#[test]
fn command_block_strips_leading_slash() {
    let mut f = base("command_block");
    f.blockstate = Some("facing=up".to_string());
    f.nbt = SetblockNbt::CommandBlock(SetblockCommandBlockOptions {
        command: "/say hi".to_string(),
        auto: true,
        track_output: None,
    });
    assert_eq!(
        build_setblock_command(&f),
        r#"setblock ~ ~ ~ minecraft:command_block[facing=up]{Command:"say hi",auto:1b}"#
    );
}

#[test]
fn container_items_slot_upper_count_lower() {
    let mut f = base("chest");
    f.nbt = SetblockNbt::ContainerItems(vec![ContainerSlot {
        slot: 0,
        item: NbtItem { id: "diamond".to_string(), count: Some(5), ..Default::default() },
    }]);
    assert_eq!(
        build_setblock_command(&f),
        r#"setblock ~ ~ ~ minecraft:chest{Items:[{Slot:0b,id:"minecraft:diamond",count:5}]}"#
    );
}

#[test]
fn container_items_with_components() {
    let mut f = base("chest");
    f.nbt = SetblockNbt::ContainerItems(vec![ContainerSlot {
        slot: 1,
        item: NbtItem {
            id: "stone".to_string(),
            count: Some(1),
            components: vec![("custom_name".to_string(), r#"'{"text":"x"}'"#.to_string())],
            ..Default::default()
        },
    }]);
    assert_eq!(
        build_setblock_command(&f),
        r#"setblock ~ ~ ~ minecraft:chest{Items:[{Slot:1b,id:"minecraft:stone",count:1,components:{"minecraft:custom_name":'{"text":"x"}'}}]}"#
    );
}

fn form(action: ScoreboardAction) -> ScoreboardForm {
    ScoreboardForm { with_slash: false, action }
}

#[test]
fn objectives_add() {
    let f = form(ScoreboardAction::ObjectivesAdd {
        objective: "kills".to_string(),
        criteria: "playerKillCount".to_string(),
        display_name: None,
    });
    assert_eq!(build_scoreboard_command(&f), "scoreboard objectives add kills playerKillCount");
}

#[test]
fn objectives_add_with_display_name() {
    let f = form(ScoreboardAction::ObjectivesAdd {
        objective: "kills".to_string(),
        criteria: "dummy".to_string(),
        display_name: Some("击杀数".to_string()),
    });
    assert_eq!(build_scoreboard_command(&f), r#"scoreboard objectives add kills dummy {"text":"击杀数"}"#);
}

#[test]
fn objectives_setdisplay() {
    let f = form(ScoreboardAction::ObjectivesSetdisplay {
        slot: "sidebar".to_string(),
        objective: Some("kills".to_string()),
    });
    assert_eq!(build_scoreboard_command(&f), "scoreboard objectives setdisplay sidebar kills");
}

#[test]
fn players_set() {
    let f = form(ScoreboardAction::PlayersSet { targets: "@a".to_string(), objective: "kills".to_string(), score: 0 });
    assert_eq!(build_scoreboard_command(&f), "scoreboard players set @a kills 0");
}

#[test]
fn players_operation() {
    let f = form(ScoreboardAction::PlayersOperation {
        targets: "@s".to_string(),
        objective: "a".to_string(),
        operation: ScoreboardOperation::Add,
        source: "@s".to_string(),
        source_objective: "b".to_string(),
    });
    assert_eq!(build_scoreboard_command(&f), "scoreboard players operation @s a += @s b");
}

#[test]
fn players_reset_all() {
    let f = form(ScoreboardAction::PlayersReset { targets: "@a".to_string(), objective: None });
    assert_eq!(build_scoreboard_command(&f), "scoreboard players reset @a");
}

#[test]
fn scoreboard_other_actions() {
    let f = ScoreboardForm {
        with_slash: true,
        action: ScoreboardAction::ObjectivesModifyRendertype { objective: "hp".to_string(), rendertype: RenderType::Hearts },
    };
    assert_eq!(build_scoreboard_command(&f), "/scoreboard objectives modify hp rendertype hearts");
    let f = form(ScoreboardAction::PlayersRemove { targets: "@p".to_string(), objective: "x".to_string(), score: -3 });
    assert_eq!(build_scoreboard_command(&f), "scoreboard players remove @p x -3");
    let f = form(ScoreboardAction::PlayersList { target: Some(String::new()) });
    assert_eq!(build_scoreboard_command(&f), "scoreboard players list");
    let f = form(ScoreboardAction::ObjectivesModifyDisplayname { objective: "k".to_string(), display_name: "a\"b".to_string() });
    assert_eq!(build_scoreboard_command(&f), r#"scoreboard objectives modify k displayname {"text":"a\"b"}"#);
}

#[test]
fn sign_lines_are_json_strings() {
    let mut f = base("oak_sign");
    f.nbt = SetblockNbt::SignLines(["hi".to_string(), String::new(), String::new(), String::new()]);
    assert_eq!(
        build_setblock_command(&f),
        r#"setblock ~ ~ ~ minecraft:oak_sign{front_text:{messages:["{\"text\":\"hi\"}","{\"text\":\"\"}","{\"text\":\"\"}","{\"text\":\"\"}"],color:"black",has_glowing_text:0b},back_text:{messages:["{\"text\":\"\"}","{\"text\":\"\"}","{\"text\":\"\"}","{\"text\":\"\"}"],color:"black",has_glowing_text:0b},is_waxed:0b}"#
    );
}

#[test]
fn items_with_enchantments_follow_the_version() {
    let item = NbtItem {
        id: "diamond_sword".to_string(),
        count: None,
        enchantments: Some(vec![
            NbtEnchantment { id: "minecraft:sharpness".to_string(), level: 5 },
            NbtEnchantment { id: " ".to_string(), level: 1 },
            NbtEnchantment { id: "looting".to_string(), level: 3 },
        ]),
        components: vec![],
    };
    assert_eq!(
        serialize_item(&item, Some(GiveVersion::Java1_21)),
        r#"{id:"minecraft:diamond_sword",count:1,components:{"minecraft:enchantments":{levels:{sharpness:5,looting:3}}}}"#
    );
    assert_eq!(
        serialize_item(&item, Some(GiveVersion::Java1_21_5)),
        r#"{id:"minecraft:diamond_sword",count:1,components:{"minecraft:enchantments":{sharpness:5,looting:3}}}"#
    );
    assert_eq!(serialize_item(&item, None), r#"{id:"minecraft:diamond_sword",count:1}"#);
    assert_eq!(serialize_container_item(3, &item, None), r#"{Slot:3b,id:"minecraft:diamond_sword",count:1}"#);
}

#[test]
fn effects_and_attribute_ids() {
    assert_eq!(serialize_effects(&[]), "");
    let e = NbtEffect { id: "speed".to_string(), duration: None, amplifier: Some(1), show_particles: Some(false) };
    assert_eq!(
        serialize_effects(&[e.clone(), e]),
        r#"active_effects:[{id:"minecraft:speed",duration:200,amplifier:1b,show_particles:0b},{id:"minecraft:speed",duration:200,amplifier:1b,show_particles:0b}]"#
    );
    assert_eq!(normalize_attribute_id(" minecraft:generic.max_health ", false), "minecraft:max_health");
    assert_eq!(normalize_attribute_id("max_health", true), "minecraft:generic.max_health");
}

#[test]
fn equipment_by_version() {
    let eq = NbtEquipment {
        mainhand: Some(NbtItem { id: "bow".to_string(), ..Default::default() }),
        head: Some(NbtItem { id: "iron_helmet".to_string(), ..Default::default() }),
        ..Default::default()
    };
    assert_eq!(
        serialize_equipment(&eq, true, None),
        vec![r#"equipment:{mainhand:{id:"minecraft:bow",count:1},head:{id:"minecraft:iron_helmet",count:1}}"#.to_string()]
    );
    assert_eq!(
        serialize_equipment(&eq, false, None),
        vec![
            r#"HandItems:[{id:"minecraft:bow",count:1},{}]"#.to_string(),
            r#"ArmorItems:[{},{},{},{id:"minecraft:iron_helmet",count:1}]"#.to_string(),
        ]
    );
    assert!(serialize_equipment(&NbtEquipment::default(), true, None).is_empty());
    assert!(serialize_equipment(&NbtEquipment::default(), false, None).is_empty());
}

#[test]
fn execute_subcommand_builders() {
    let p = c("~", "~-1", "~");
    assert_eq!(sub::positioned(&p), "positioned ~ ~-1 ~");
    assert_eq!(sub::if_block(&p, "minecraft:stone"), "if block ~ ~-1 ~ minecraft:stone");
    assert_eq!(sub::facing_entity("@p", None), "facing entity @p eyes");
    assert_eq!(sub::if_score_matches("@s", "hp", "..5"), "if score @s hp matches ..5");
    assert_eq!(sub::store_result_score("@s", "x"), "store result score @s x");
    assert_eq!(sub::in_dimension("minecraft:the_end"), "in minecraft:the_end");
    let f = ExecuteForm { subcommands: vec!["  ".to_string(), sub::unless_entity("@e")], run: Some("  ".to_string()), ..Default::default() };
    assert_eq!(build_execute_command(&f).unwrap(), "execute unless entity @e");
    let f = ExecuteForm { subcommands: vec!["iffy".to_string()], ..Default::default() };
    assert_eq!(build_execute_command(&f).unwrap_err(), "execute 无 run 时必须以 if/unless 子命令结尾。");
}
