//! The `/give` command from a form: item components in the syntax of each version family
//! (modern 1.21.5+, 1.21.2–1.21.4, 1.20.5, the 1.21/1.21.1 legacy family) and Bedrock's JSON
//! components.

use vstd::prelude::*;
use crate::give::builder::{
    bool_byte, bool_byte_spec, component_id, component_id_spec, is_java121_legacy_family, json_quoted, pair_value,
    pair_value_spec, profile_of, quote, resolve_text_profile, text_profile_of, BlockLimitRow, GiveVersion, ModernProfile,
    TextProfile,
};
use crate::give::catalog::{map_catalog, map_catalog_spec, namespaced, namespaced_spec};
use crate::give::component::{
    append_texts, arr_of, arr_text, lemma_warnings_add, member, member_of, obj_of, obj_text, push_text,
    serialize_text, text_spec, warnings_of, RichLine,
};
use crate::give::form::{AttributeRow, EffectEntry, EffectGroup, EnchantRow, GiveForm, ToolRuleRow};
use crate::give::json::{
    csv_items, fmt_number, int_or, lemma_views, normalize_int, number_text, percent_to_probability, probability_text,
    split_csv_str, texts, value_as_text, value_text, view_of, views, JsonValue, JsonView,
};
use crate::give::number::Decimal;
use crate::store::now_nanos;
use crate::text::{contains_char, has_char, i64_text, int_text, is_blank, push_char, push_str, str_eq, string_from, trim, trim_spec};

verus! {

/// The catalogs the command maps display names and ids through.
pub struct GiveTables {
    pub items: &'static [(&'static str, &'static str)],
    pub blocks: &'static [(&'static str, &'static str)],
    pub enchants: &'static [(&'static str, &'static str)],
    pub attributes: &'static [(&'static str, &'static str)],
    pub bedrock_items: &'static [(&'static str, &'static str)],
    pub bedrock_blocks: &'static [(&'static str, &'static str)],
}

/// Equipment slots: (label, value).
pub const SLOTS: [(&'static str, &'static str); 10] = [
    ("任意", "any"),
    ("手部", "hand"),
    ("盔甲", "armor"),
    ("身体", "body"),
    ("主手", "mainhand"),
    ("副手", "offhand"),
    ("头部", "head"),
    ("胸部", "chest"),
    ("腿部", "legs"),
    ("脚部", "feet"),
];

/// Attribute modifier operations: (label, value).
pub const OPERATIONS: [(&'static str, &'static str); 3] = [
    ("加算", "add_value"),
    ("基值乘算", "add_multiplied_base"),
    ("总值乘算", "add_multiplied_total"),
];

/// Rarities: (label, value).
pub const RARITIES: [(&'static str, &'static str); 5] = [
    ("不设置", "none"),
    ("普通", "common"),
    ("罕见", "uncommon"),
    ("稀有", "rare"),
    ("史诗", "epic"),
];

/// Block limit kinds: (label, value).
pub const LIMIT_TYPES: [(&'static str, &'static str); 3] = [("可放置", "place"), ("可破坏", "break"), ("两者", "both")];

/// Bedrock item lock modes: (label, value).
pub const ITEM_LOCK_MODES: [(&'static str, &'static str); 3] = [
    ("不设置", "none"),
    ("锁定背包", "lock_in_inventory"),
    ("锁定槽位", "lock_in_slot"),
];

/// Whether a tool rule's blocks drop: (label, value).
pub const CORRECT_FOR_DROPS: [(&'static str, &'static str); 3] = [("默认", "default"), ("是", "true"), ("否", "false")];

/// The 1.21 legacy attribute names of the modern ids that have a category prefix.
pub const LEGACY_ATTRIBUTE_NAMES: [(&'static str, &'static str); 19] = [
    ("armor", "generic.armor"),
    ("armor_toughness", "generic.armor_toughness"),
    ("attack_damage", "generic.attack_damage"),
    ("attack_knockback", "generic.attack_knockback"),
    ("attack_speed", "generic.attack_speed"),
    ("block_break_speed", "generic.block_break_speed"),
    ("block_interaction_range", "player.block_interaction_range"),
    ("entity_interaction_range", "player.entity_interaction_range"),
    ("fall_damage_multiplier", "generic.fall_damage_multiplier"),
    ("knockback_resistance", "generic.knockback_resistance"),
    ("luck", "generic.luck"),
    ("max_absorption", "generic.max_absorption"),
    ("max_health", "generic.max_health"),
    ("mining_efficiency", "player.mining_efficiency"),
    ("oxygen_bonus", "generic.oxygen_bonus"),
    ("safe_fall_distance", "generic.safe_fall_distance"),
    ("sneaking_speed", "player.sneaking_speed"),
    ("submerged_mining_speed", "player.submerged_mining_speed"),
    ("water_movement_efficiency", "generic.water_movement_efficiency"),
];

/// `k=v`, an item component.
pub open spec fn eqp(k: Seq<char>, v: Seq<char>) -> Seq<char> {
    k + seq!['='] + v
}

/// `k:v`, an SNBT field.
pub open spec fn kv(k: Seq<char>, v: Seq<char>) -> Seq<char> {
    k + seq![':'] + v
}

/// A whole number held to at least `lo`.
pub open spec fn at_least_int(x: i64, lo: int) -> int {
    if x < lo {
        lo
    } else {
        x as int
    }
}

/// The target, trimmed; `@a` when blank.
pub open spec fn target_spec(t: Seq<char>) -> Seq<char> {
    if trim_spec(t).len() == 0 {
        "@a"@
    } else {
        trim_spec(t)
    }
}

/// `1b` for yes, `0b` for no.
pub open spec fn yes_byte(label: Seq<char>) -> Seq<char> {
    if label == "是"@ {
        "1b"@
    } else {
        "0b"@
    }
}

// ---------------------------------------------------------------- text components

/// `key=` and the first line, when there is one.
pub open spec fn name_part(key: Seq<char>, lines: Seq<RichLine>, snbt: bool, tp: TextProfile) -> (Seq<Seq<char>>, nat) {
    if lines.len() > 0 {
        let (t, w) = text_spec(crate::give::json::views(lines[0]@), snbt, tp);
        (seq![eqp(key, t)], w)
    } else {
        (seq![], 0)
    }
}

/// Every lore line as text.
pub open spec fn lore_texts(lines: Seq<RichLine>, snbt: bool, tp: TextProfile) -> (Seq<Seq<char>>, nat)
    decreases lines.len(),
{
    if lines.len() == 0 {
        (seq![], 0)
    } else {
        let (r, w) = lore_texts(lines.drop_last(), snbt, tp);
        let (t, w2) = text_spec(crate::give::json::views(lines.last()@), snbt, tp);
        (r.push(t), w + w2)
    }
}

/// `lore=[...]` when there are lore lines.
pub open spec fn lore_part(lines: Seq<RichLine>, snbt: bool, tp: TextProfile) -> (Seq<Seq<char>>, nat) {
    if lines.len() > 0 {
        let (xs, w) = lore_texts(lines, snbt, tp);
        (seq![eqp("lore"@, arr_text(xs))], w)
    } else {
        (seq![], 0)
    }
}

// ---------------------------------------------------------------- simple components

/// `rarity=` unless the rarity is `none`.
pub open spec fn rarity_part(f: GiveForm) -> Seq<Seq<char>> {
    let r = pair_value_spec(RARITIES@, f.rarity@);
    if r != "none"@ {
        seq![eqp("rarity"@, r)]
    } else {
        seq![]
    }
}

/// `enchantment_glint_override=` unless the glint is left at its default.
pub open spec fn glint_part(f: GiveForm) -> Seq<Seq<char>> {
    if f.glint@ != "默认"@ {
        seq![
            eqp(
                "enchantment_glint_override"@,
                if f.glint@ == "开启"@ {
                    "true"@
                } else {
                    "false"@
                },
            ),
        ]
    } else {
        seq![]
    }
}

/// The `id:level` entries of the enchantment rows with an id.
pub open spec fn enchant_entries(rows: Seq<EnchantRow>, table: Seq<(&str, &str)>) -> Seq<Seq<char>>
    decreases rows.len(),
{
    if rows.len() == 0 {
        seq![]
    } else {
        let r = enchant_entries(rows.drop_last(), table);
        let e = rows.last();
        if trim_spec(e.id@).len() > 0 {
            r.push(kv(component_id_spec(map_catalog_spec(table, e.id@)), int_text(int_or(e.level@, 1, 1) as int)))
        } else {
            r
        }
    }
}

/// `enchantments={...}`, with the `levels` wrapper in the legacy family.
pub open spec fn enchant_part(f: GiveForm, table: Seq<(&str, &str)>, legacy: bool) -> Seq<Seq<char>> {
    let es = enchant_entries(f.enchantments@, table);
    if es.len() > 0 {
        if legacy {
            seq![eqp("enchantments"@, "{levels:"@ + obj_text(es) + "}"@)]
        } else {
            seq![eqp("enchantments"@, obj_text(es))]
        }
    } else {
        seq![]
    }
}

/// The name of an attribute in the 1.21 legacy family: the id with its category prefix.
pub open spec fn legacy_name(pairs: Seq<(&str, &str)>, id: Seq<char>) -> Option<Seq<char>>
    decreases pairs.len(),
{
    if pairs.len() == 0 {
        None
    } else if pairs[0].0@ == id {
        Some(pairs[0].1@)
    } else {
        legacy_name(pairs.drop_first(), id)
    }
}

/// The legacy attribute type: an id with a `.` as it is, a known id with its category, any
/// other id under `generic.`.
pub open spec fn legacy_attribute_spec(value: Seq<char>, table: Seq<(&str, &str)>) -> Seq<char> {
    let id = component_id_spec(map_catalog_spec(table, value));
    if has_char(id, '.') {
        id
    } else {
        match legacy_name(LEGACY_ATTRIBUTE_NAMES@, id) {
            Some(n) => n,
            None => "generic."@ + id,
        }
    }
}

/// The `slot:` field of an attribute modifier, unless it applies to any slot.
pub open spec fn slot_field(r: AttributeRow, legacy: bool) -> Seq<Seq<char>> {
    let input = if trim_spec(r.slot@).len() == 0 {
        if legacy {
            "any"@
        } else {
            "任意"@
        }
    } else {
        r.slot@
    };
    let s = pair_value_spec(SLOTS@, input);
    if s.len() > 0 && s != "any"@ {
        seq![kv("slot"@, s)]
    } else {
        seq![]
    }
}

/// The operation of an attribute modifier (`add_value` when blank).
pub open spec fn operation_of(r: AttributeRow, legacy: bool) -> Seq<char> {
    let input = if trim_spec(r.operation@).len() == 0 {
        if legacy {
            "add_value"@
        } else {
            "加算"@
        }
    } else {
        r.operation@
    };
    pair_value_spec(OPERATIONS@, input)
}

/// One attribute modifier with the id it gets.
pub open spec fn attribute_entry(r: AttributeRow, id: Seq<char>, table: Seq<(&str, &str)>, legacy: bool) -> Seq<char> {
    let ty = if legacy {
        json_quoted(legacy_attribute_spec(r.attribute_type@, table))
    } else {
        component_id_spec(map_catalog_spec(table, r.attribute_type@))
    };
    obj_text(
        seq![kv("type"@, ty), kv("amount"@, number_text(r.amount@))] + slot_field(r, legacy) + seq![
            kv("id"@, json_quoted(id)),
            kv("operation"@, operation_of(r, legacy)),
        ],
    )
}

/// The attribute rows that get a generated id: those with a type and no id.
pub open spec fn blank_ids(rows: Seq<AttributeRow>) -> nat
    decreases rows.len(),
{
    if rows.len() == 0 {
        0
    } else {
        let r = rows.last();
        blank_ids(rows.drop_last()) + if trim_spec(r.attribute_type@).len() > 0 && trim_spec(r.id@).len() == 0 {
            1nat
        } else {
            0nat
        }
    }
}

/// The number of modifier ids a `/give` command generates: one per blank-id row, on the
/// versions whose syntax has attribute modifiers.
pub open spec fn wanted_ids(f: GiveForm) -> nat {
    if f.version == GiveVersion::Bedrock {
        0
    } else if f.version == GiveVersion::Java1_21 || f.version == GiveVersion::Java1_21_1 || profile_of(
        f.version,
    ).supports_attribute_modifiers {
        blank_ids(f.attributes@)
    } else {
        0
    }
}

/// The modifier-id serial `k` steps after `start`, wrapping as a 64-bit counter does.
pub open spec fn serial_after(start: u64, k: int) -> nat {
    ((start + k) % 0x1_0000_0000_0000_0000) as nat
}

/// Generated modifier ids: the `k`-th is `<clock nanoseconds>-<serial>` in hexadecimal, its
/// serial `k` steps after `start`; the serials make them distinct.
pub open spec fn fresh_ids(ids: Seq<Seq<char>>, start: u64) -> bool {
    forall|k: int|
        0 <= k < ids.len() ==> exists|t: nat|
            #![trigger hex_digits(t)]
            #[trigger] ids[k] == hex_digits(t) + "-"@ + hex_digits(serial_after(start, k))
}

/// The attribute modifiers of the rows with a type; the rows without an id take the generated
/// `ids` in order.
pub open spec fn attribute_entries(rows: Seq<AttributeRow>, ids: Seq<Seq<char>>, table: Seq<(&str, &str)>, legacy: bool) -> Seq<
    Seq<char>,
>
    decreases rows.len(),
{
    if rows.len() == 0 {
        seq![]
    } else {
        let r = rows.last();
        if trim_spec(r.attribute_type@).len() == 0 {
            attribute_entries(rows.drop_last(), ids, table, legacy)
        } else if trim_spec(r.id@).len() == 0 {
            attribute_entries(rows.drop_last(), ids.drop_last(), table, legacy).push(
                attribute_entry(r, ids.last(), table, legacy),
            )
        } else {
            attribute_entries(rows.drop_last(), ids, table, legacy).push(attribute_entry(r, r.id@, table, legacy))
        }
    }
}

/// `attribute_modifiers=`: a list, or `{modifiers:[...]}` in the legacy family.
pub open spec fn attribute_part(f: GiveForm, ids: Seq<Seq<char>>, table: Seq<(&str, &str)>, legacy: bool) -> Seq<Seq<char>> {
    let es = attribute_entries(f.attributes@, ids, table, legacy);
    if es.len() > 0 {
        if legacy {
            seq![eqp("attribute_modifiers"@, "{modifiers:"@ + arr_text(es) + "}"@)]
        } else {
            seq![eqp("attribute_modifiers"@, arr_text(es))]
        }
    } else {
        seq![]
    }
}

/// The kind of a block limit row (`place`, `break` or `both` once mapped).
pub open spec fn limit_kind(r: BlockLimitRow) -> Seq<char> {
    pair_value_spec(LIMIT_TYPES@, r.limit_type@)
}

/// `{blocks:"id"}` for each row of kind `want` (or `both`) that names a block.
pub open spec fn predicates(rows: Seq<BlockLimitRow>, want: Seq<char>, table: Seq<(&str, &str)>) -> Seq<Seq<char>>
    decreases rows.len(),
{
    if rows.len() == 0 {
        seq![]
    } else {
        let r = predicates(rows.drop_last(), want, table);
        let row = rows.last();
        if (limit_kind(row) == want || limit_kind(row) == "both"@) && trim_spec(row.block@).len() > 0 {
            r.push("{blocks:"@ + json_quoted(map_catalog_spec(table, row.block@)) + "}"@)
        } else {
            r
        }
    }
}

/// A predicate list, in `{predicates:[...]}` where the version wants the wrapper.
pub open spec fn wrapped(preds: Seq<Seq<char>>, wrapper: bool) -> Seq<char> {
    if wrapper {
        "{predicates:"@ + arr_text(preds) + "}"@
    } else {
        arr_text(preds)
    }
}

/// `can_place_on=` and `can_break=` for the rows that have them.
pub open spec fn limits_part(f: GiveForm, table: Seq<(&str, &str)>, wrapper: bool) -> Seq<Seq<char>> {
    let place = predicates(f.block_limits@, "place"@, table);
    let brk = predicates(f.block_limits@, "break"@, table);
    (if place.len() > 0 {
        seq![eqp("can_place_on"@, wrapped(place, wrapper))]
    } else {
        seq![]
    }) + (if brk.len() > 0 {
        seq![eqp("can_break"@, wrapped(brk, wrapper))]
    } else {
        seq![]
    })
}

/// `unbreakable={}` and the raw `custom_data=` when set.
pub open spec fn flags_part(f: GiveForm) -> Seq<Seq<char>> {
    (if f.unbreakable {
        seq!["unbreakable={}"@]
    } else {
        seq![]
    }) + (if trim_spec(f.custom_data@).len() > 0 {
        seq![eqp("custom_data"@, trim_spec(f.custom_data@))]
    } else {
        seq![]
    })
}

/// The durability and stack components that are switched on.
pub open spec fn counts_part(f: GiveForm) -> Seq<Seq<char>> {
    (if f.damage_enabled {
        seq![eqp("damage"@, int_text(at_least_int(f.damage, 0)))]
    } else {
        seq![]
    }) + (if f.max_damage_enabled {
        seq![eqp("max_damage"@, int_text(at_least_int(f.max_damage, 1)))]
    } else {
        seq![]
    }) + (if f.stack_enabled {
        seq![eqp("max_stack_size"@, int_text(at_least_int(f.max_stack_size, 1)))]
    } else {
        seq![]
    }) + (if f.repair_enabled {
        seq![eqp("repair_cost"@, int_text(at_least_int(f.repair_cost, 0)))]
    } else {
        seq![]
    })
}

/// `tooltip_display={hidden_components:[...]}` for the hidden components listed.
pub open spec fn tooltip_part(f: GiveForm) -> Seq<Seq<char>> {
    let hidden = csv_items(f.hidden_components@);
    if hidden.len() > 0 {
        seq![
            eqp(
                "tooltip_display"@,
                "{hidden_components:"@ + arr_text(Seq::new(hidden.len(), |i: int| json_quoted(namespaced_spec(hidden[i]))))
                    + "}"@,
            ),
        ]
    } else {
        seq![]
    }
}

/// `can_always_eat:` unless left at its default.
pub open spec fn always_eat_field(f: GiveForm) -> Seq<Seq<char>> {
    if f.always_eat@ != "默认"@ {
        seq![kv("can_always_eat"@, yes_byte(f.always_eat@))]
    } else {
        seq![]
    }
}

/// The nutrition and saturation fields of a food component.
pub open spec fn food_fields(f: GiveForm) -> Seq<Seq<char>> {
    seq![kv("nutrition"@, int_text(at_least_int(f.nutrition, 0))), kv("saturation"@, f.saturation.fixed())]
        + always_eat_field(f)
}

// ---------------------------------------------------------------- effects and tool rules

/// The full effects of an `apply_effects` group with a non-blank id.
pub open spec fn full_effects(es: Seq<EffectEntry>) -> Seq<Seq<char>>
    decreases es.len(),
{
    if es.len() == 0 {
        seq![]
    } else {
        let r = full_effects(es.drop_last());
        match es.last() {
            EffectEntry::Full { id, duration, amplifier, show_particles, show_icon } => {
                let cid = component_id_spec(id@);
                if cid.len() > 0 {
                    r.push(
                        "{id:"@ + cid + ",duration:"@ + int_text(int_or(duration@, 0, 0) as int) + ",amplifier:"@
                            + int_text(int_or(amplifier@, 0, 0) as int) + ",ShowParticles:"@ + bool_byte_spec(
                            match show_particles {
                                Some(b) => b,
                                None => true,
                            },
                        ) + ",ShowIcon:"@ + bool_byte_spec(
                            match show_icon {
                                Some(b) => b,
                                None => true,
                            },
                        ) + "}"@,
                    )
                } else {
                    r
                }
            },
            EffectEntry::Id(_) => r,
        }
    }
}

/// The id of any effect entry.
pub open spec fn entry_id(e: EffectEntry) -> Seq<char> {
    match e {
        EffectEntry::Id(s) => s@,
        EffectEntry::Full { id, .. } => id@,
    }
}

/// The non-blank component ids of the effects.
pub open spec fn effect_ids(es: Seq<EffectEntry>) -> Seq<Seq<char>>
    decreases es.len(),
{
    if es.len() == 0 {
        seq![]
    } else {
        let r = effect_ids(es.drop_last());
        let cid = component_id_spec(entry_id(es.last()));
        if cid.len() > 0 {
            r.push(cid)
        } else {
            r
        }
    }
}

/// The consume/death effect of one group, if it has any.
pub open spec fn group_text(g: EffectGroup) -> Seq<Seq<char>> {
    let ty = g.group_type@;
    if ty == "apply_effects"@ {
        let es = full_effects(g.effects@);
        if es.len() > 0 {
            seq![
                "{type:apply_effects,probability:"@ + probability_text(g.probability_percent@) + ",effects:"@
                    + arr_text(es) + "}"@,
            ]
        } else {
            seq![]
        }
    } else if ty == "remove_effects"@ {
        let ids = effect_ids(g.effects@);
        if ids.len() > 0 {
            seq!["{type:remove_effects,effects:"@ + arr_text(ids) + "}"@]
        } else {
            seq![]
        }
    } else if ty == "clear_all_effects"@ {
        seq!["{type:clear_all_effects}"@]
    } else if ty == "teleport_randomly"@ {
        let d = if g.diameter@ is Null {
            JsonView::Number(Decimal { mantissa: 16, exponent: 0 })
        } else {
            g.diameter@
        };
        seq!["{type:teleport_randomly,diameter:"@ + number_text(d) + "}"@]
    } else {
        seq![]
    }
}

/// The effects of every group, in order.
pub open spec fn groups_text(gs: Seq<EffectGroup>) -> Seq<Seq<char>>
    decreases gs.len(),
{
    if gs.len() == 0 {
        seq![]
    } else {
        groups_text(gs.drop_last()) + group_text(gs.last())
    }
}

/// The food effects of the 1.21 legacy family: each effect of each `apply_effects` group with
/// the group's probability.
pub open spec fn legacy_food_effects(gs: Seq<EffectGroup>) -> Seq<Seq<char>>
    decreases gs.len(),
{
    if gs.len() == 0 {
        seq![]
    } else {
        let g = gs.last();
        legacy_food_effects(gs.drop_last()) + if g.group_type@ == "apply_effects"@ {
            legacy_group_effects(g.effects@, probability_text(g.probability_percent@) + "f"@)
        } else {
            seq![]
        }
    }
}

/// The legacy food effects of one group's entries.
pub open spec fn legacy_group_effects(es: Seq<EffectEntry>, probability: Seq<char>) -> Seq<Seq<char>>
    decreases es.len(),
{
    if es.len() == 0 {
        seq![]
    } else {
        let r = legacy_group_effects(es.drop_last(), probability);
        let e = es.last();
        let cid = component_id_spec(entry_id(e));
        if cid.len() == 0 {
            r
        } else {
            let fields = seq![kv("id"@, cid)] + match e {
                EffectEntry::Full { duration, amplifier, show_particles, show_icon, .. } => seq![
                    kv("duration"@, int_text(int_or(duration@, 0, 0) as int)),
                    kv("amplifier"@, int_text(int_or(amplifier@, 0, 0) as int)),
                    kv(
                        "ShowParticles"@,
                        bool_byte_spec(
                            match show_particles {
                                Some(b) => b,
                                None => true,
                            },
                        ),
                    ),
                    kv(
                        "ShowIcon"@,
                        bool_byte_spec(
                            match show_icon {
                                Some(b) => b,
                                None => true,
                            },
                        ),
                    ),
                ],
                EffectEntry::Id(_) => seq![],
            };
            r.push("{effect:"@ + obj_text(fields) + ",probability:"@ + probability + "}"@)
        }
    }
}

/// The strings of an array, as they are.
pub open spec fn array_strings(vs: Seq<JsonView>) -> Seq<Seq<char>>
    decreases vs.len(),
{
    if vs.len() == 0 {
        seq![]
    } else {
        let r = array_strings(vs.drop_last());
        match vs.last() {
            JsonView::String(s) => r.push(s),
            _ => r,
        }
    }
}

/// The block names of a tool rule: a list of strings or comma-separated text.
pub open spec fn rule_block_names(v: JsonView) -> Seq<Seq<char>> {
    match v {
        JsonView::Array(vs) => array_strings(vs),
        JsonView::String(s) => csv_items(s),
        _ => seq![],
    }
}

/// The non-blank component ids of block names mapped through the catalog.
pub open spec fn rule_block_ids(names: Seq<Seq<char>>, table: Seq<(&str, &str)>) -> Seq<Seq<char>>
    decreases names.len(),
{
    if names.len() == 0 {
        seq![]
    } else {
        let r = rule_block_ids(names.drop_last(), table);
        let id = component_id_spec(map_catalog_spec(table, names.last()));
        if id.len() > 0 {
            r.push(id)
        } else {
            r
        }
    }
}

/// The `correct_for_drops` field of a rule, unless left at its default.
pub open spec fn drops_field(r: ToolRuleRow) -> Seq<Seq<char>> {
    let c = pair_value_spec(CORRECT_FOR_DROPS@, r.correct_for_drops@);
    if c == "true"@ {
        seq!["correct_for_drops:1b"@]
    } else if c == "false"@ {
        seq!["correct_for_drops:0b"@]
    } else {
        seq![]
    }
}

/// One tool rule, if it names a block.
pub open spec fn rule_text(r: ToolRuleRow, table: Seq<(&str, &str)>) -> Seq<Seq<char>> {
    let blocks = rule_block_ids(rule_block_names(r.blocks@), table);
    if blocks.len() == 0 {
        seq![]
    } else {
        let speed = if trim_spec(value_text(Some(r.speed@))).len() > 0 {
            seq![kv("speed"@, number_text(r.speed@) + "f"@)]
        } else {
            seq![]
        };
        seq![obj_text(seq![kv("blocks"@, arr_text(blocks))] + speed + drops_field(r))]
    }
}

/// The rules of the tool component, in order.
pub open spec fn rules_text(rs: Seq<ToolRuleRow>, table: Seq<(&str, &str)>) -> Seq<Seq<char>>
    decreases rs.len(),
{
    if rs.len() == 0 {
        seq![]
    } else {
        rules_text(rs.drop_last(), table) + rule_text(rs.last(), table)
    }
}

/// `tool={...}` when the tool is on or has rules.
pub open spec fn tool_part(f: GiveForm, table: Seq<(&str, &str)>) -> Seq<Seq<char>> {
    let rules = rules_text(f.tool_rules@, table);
    if f.tool_enabled || rules.len() > 0 {
        seq![
            eqp(
                "tool"@,
                obj_text(
                    (if f.tool_enabled {
                        seq![
                            kv("default_mining_speed"@, f.default_mining_speed.fixed()),
                            kv("damage_per_block"@, int_text(at_least_int(f.damage_per_block, 0))),
                        ]
                    } else {
                        seq![]
                    }) + (if rules.len() > 0 {
                        seq![kv("rules"@, arr_text(rules))]
                    } else {
                        seq![]
                    }),
                ),
            ),
        ]
    } else {
        seq![]
    }
}

// ---------------------------------------------------------------- version families

/// `death_protection=` when set or with death effects (where the version has it).
pub open spec fn death_part(f: GiveForm, p: ModernProfile) -> Seq<Seq<char>> {
    let de = groups_text(f.death_effects@);
    if p.supports_death_protection && (f.death_protection || de.len() > 0) {
        if de.len() == 0 {
            seq!["death_protection={}"@]
        } else {
            seq![eqp("death_protection"@, "{death_effects:"@ + arr_text(de) + "}"@)]
        }
    } else {
        seq![]
    }
}

/// `consumable=` when switched on or with consume effects (where the version has it).
pub open spec fn consumable_part(f: GiveForm, p: ModernProfile) -> Seq<Seq<char>> {
    let ce = groups_text(f.consume_effects@);
    if p.supports_consumable && (f.consumable_enabled || ce.len() > 0) {
        let own = if f.consumable_enabled {
            seq![kv("consume_seconds"@, f.consume_seconds.fixed())] + (if trim_spec(f.consume_sound@).len() > 0 {
                seq![kv("sound"@, json_quoted(namespaced_spec(trim_spec(f.consume_sound@))))]
            } else {
                seq![]
            }) + (if f.consume_particles@ != "默认"@ {
                seq![kv("has_consume_particles"@, yes_byte(f.consume_particles@))]
            } else {
                seq![]
            })
        } else {
            seq![]
        };
        seq![eqp("consumable"@, obj_text(own + if ce.len() > 0 { seq![kv("on_consume_effects"@, arr_text(ce))] } else { seq![] }))]
    } else {
        seq![]
    }
}

/// `food=` of the 1.21 legacy family, which also carries the eating time and effects.
pub open spec fn legacy_food_part(f: GiveForm) -> Seq<Seq<char>> {
    let fe = legacy_food_effects(f.consume_effects@);
    if !f.food_enabled && !f.consumable_enabled && fe.len() == 0 {
        seq![]
    } else {
        seq![
            eqp(
                "food"@,
                obj_text(
                    food_fields(f) + (if f.consumable_enabled {
                        seq![kv("eat_seconds"@, f.consume_seconds.fixed())]
                    } else {
                        seq![]
                    }) + (if fe.len() > 0 {
                        seq![kv("effects"@, arr_text(fe))]
                    } else {
                        seq![]
                    }),
                ),
            ),
        ]
    }
}

/// `/give <target> <item>[components] <count>`.
pub open spec fn give_line(f: GiveForm, item: Seq<char>, parts: Seq<Seq<char>>) -> Seq<char> {
    (if f.with_slash {
        "/"@
    } else {
        seq![]
    }) + "give "@ + target_spec(f.target@) + " "@ + item + (if parts.len() == 0 {
        seq![]
    } else {
        arr_text(parts)
    }) + " "@ + int_text(at_least_int(f.count, 1))
}

/// The text, enchantment and attribute components of the modern families, with the warnings
/// of their text.
pub open spec fn modern_head(f: GiveForm, p: ModernProfile, t: GiveTables, ids: Seq<Seq<char>>) -> (Seq<Seq<char>>, nat) {
    let tp = text_profile_of(f.version);
    let (n1, w1) = name_part("custom_name"@, f.display_name@, p.text_as_snbt_string, tp);
    let (n2, w2) = name_part("item_name"@, f.item_name@, p.text_as_snbt_string, tp);
    let (lore, w3) = lore_part(f.lore@, p.text_as_snbt_string, tp);
    (
        n1 + n2 + lore + rarity_part(f) + glint_part(f) + enchant_part(f, t.enchants@, false) + (if p.supports_attribute_modifiers {
            attribute_part(f, ids, t.attributes@, false)
        } else {
            seq![]
        }),
        w1 + w2 + w3,
    )
}

/// The limit, flag, glider, death protection and durability components of the modern families.
pub open spec fn modern_middle(f: GiveForm, p: ModernProfile, t: GiveTables) -> Seq<Seq<char>> {
    limits_part(f, t.blocks@, p.adventure_predicate_wrapper) + flags_part(f) + (if p.supports_glider && f.glider {
        seq!["glider={}"@]
    } else {
        seq![]
    }) + death_part(f, p) + counts_part(f)
}

/// The tooltip, food, consumable and tool components of the modern families.
pub open spec fn modern_end(f: GiveForm, p: ModernProfile, t: GiveTables) -> Seq<Seq<char>> {
    (if p.supports_tooltip_display {
        tooltip_part(f)
    } else {
        seq![]
    }) + (if f.food_enabled {
        seq![eqp("food"@, obj_text(food_fields(f)))]
    } else {
        seq![]
    }) + consumable_part(f, p) + tool_part(f, t.blocks@)
}

/// The components of the modern families (1.20.5, 1.21.2–1.21.4 and 1.21.5+, by profile), and
/// the warnings of their text.
#[verifier::opaque]
pub open spec fn modern_parts(f: GiveForm, p: ModernProfile, t: GiveTables, ids: Seq<Seq<char>>) -> (Seq<Seq<char>>, nat) {
    let (head, w) = modern_head(f, p, t, ids);
    (head + modern_middle(f, p, t) + modern_end(f, p, t), w)
}

/// The components of the 1.21 legacy family, and the warnings of their text.
#[verifier::opaque]
pub open spec fn legacy_parts(f: GiveForm, t: GiveTables, ids: Seq<Seq<char>>) -> (Seq<Seq<char>>, nat) {
    let tp = text_profile_of(f.version);
    let (n1, w1) = name_part("custom_name"@, f.display_name@, true, tp);
    let (n2, w2) = name_part("item_name"@, f.item_name@, true, tp);
    let (lore, w3) = lore_part(f.lore@, true, tp);
    (
        n1 + n2 + lore + rarity_part(f) + glint_part(f) + enchant_part(f, t.enchants@, true) + attribute_part(
            f,
            ids,
            t.attributes@,
            true,
        ) + limits_part(f, t.blocks@, true) + flags_part(f) + counts_part(f) + legacy_food_part(f) + tool_part(
            f,
            t.blocks@,
        ),
        w1 + w2 + w3,
    )
}

/// The Bedrock block ids of the rows of kind `want` (or `both`) that name a block.
pub open spec fn bedrock_blocks(rows: Seq<BlockLimitRow>, want: Seq<char>, table: Seq<(&str, &str)>) -> Seq<Seq<char>>
    decreases rows.len(),
{
    if rows.len() == 0 {
        seq![]
    } else {
        let r = bedrock_blocks(rows.drop_last(), want, table);
        let row = rows.last();
        if (limit_kind(row) == want || limit_kind(row) == "both"@) && trim_spec(row.block@).len() > 0 {
            r.push(component_id_spec(map_catalog_spec(table, row.block@)))
        } else {
            r
        }
    }
}

/// `{"blocks":["a",...]}`.
pub open spec fn blocks_object(ids: Seq<Seq<char>>) -> Seq<char> {
    obj_text(seq![member("blocks"@, arr_text(Seq::new(ids.len(), |i: int| json_quoted(ids[i]))))])
}

/// The JSON components of a Bedrock item: placement and break limits, item lock, keep on death.
pub open spec fn bedrock_components(f: GiveForm, t: GiveTables) -> Seq<Seq<char>> {
    let place = bedrock_blocks(f.block_limits@, "place"@, t.bedrock_blocks@);
    let brk = bedrock_blocks(f.block_limits@, "break"@, t.bedrock_blocks@);
    let lock = pair_value_spec(ITEM_LOCK_MODES@, f.bedrock_item_lock@);
    (if place.len() > 0 {
        seq![member("minecraft:can_place_on"@, blocks_object(place))]
    } else {
        seq![]
    }) + (if brk.len() > 0 {
        seq![member("minecraft:can_destroy"@, blocks_object(brk))]
    } else {
        seq![]
    }) + (if lock != "none"@ {
        seq![member("minecraft:item_lock"@, obj_text(seq![member("mode"@, json_quoted(lock))]))]
    } else {
        seq![]
    }) + (if f.bedrock_keep_on_death {
        seq![member("minecraft:keep_on_death"@, obj_text(seq![]))]
    } else {
        seq![]
    })
}

/// `/give <target> <item> <count> <data>` and the JSON components, for Bedrock.
#[verifier::opaque]
pub open spec fn bedrock_spec(f: GiveForm, t: GiveTables) -> Seq<char> {
    let comps = bedrock_components(f, t);
    (if f.with_slash {
        "/"@
    } else {
        seq![]
    }) + "give "@ + target_spec(f.target@) + " "@ + component_id_spec(map_catalog_spec(t.bedrock_items@, f.item@)) + " "@
        + int_text(at_least_int(f.count, 1)) + " "@ + int_text(at_least_int(f.bedrock_data_value, 0)) + (if comps.len()
        == 0 {
        seq![]
    } else {
        " "@ + obj_text(comps)
    })
}

/// The `/give` command of a form, with the warnings of its text, when the attribute rows
/// without an id take the generated `ids`.
pub open spec fn give_spec(f: GiveForm, t: GiveTables, ids: Seq<Seq<char>>) -> (Seq<char>, nat) {
    if f.version == GiveVersion::Bedrock {
        (bedrock_spec(f, t), 0)
    } else if f.version == GiveVersion::Java1_21 || f.version == GiveVersion::Java1_21_1 {
        let (parts, w) = legacy_parts(f, t, ids);
        (give_line(f, map_catalog_spec(t.items@, f.item@), parts), w)
    } else {
        let (parts, w) = modern_parts(f, profile_of(f.version), t, ids);
        (give_line(f, map_catalog_spec(t.items@, f.item@), parts), w)
    }
}

/// `k=v`.
fn eqp_of(k: &str, v: &str) -> (s: String)
    ensures
        s@ == eqp(k@, v@),
{
    let mut s = string_from(k);
    push_char(&mut s, '=');
    push_str(&mut s, v);
    assert(s@ =~= eqp(k@, v@));
    s
}

/// `k:v`.
fn kv_of(k: &str, v: &str) -> (s: String)
    ensures
        s@ == kv(k@, v@),
{
    let mut s = string_from(k);
    push_char(&mut s, ':');
    push_str(&mut s, v);
    assert(s@ =~= kv(k@, v@));
    s
}

/// A single-text vector.
fn one(t: String) -> (v: Vec<String>)
    ensures
        texts(v@) == seq![t@],
{
    let mut v: Vec<String> = Vec::new();
    push_text(&mut v, t);
    assert(texts(v@) =~= seq![t@]);
    v
}

/// An empty vector of texts.
fn none() -> (v: Vec<String>)
    ensures
        texts(v@) == Seq::<Seq<char>>::empty(),
{
    let v: Vec<String> = Vec::new();
    assert(texts(v@) =~= Seq::<Seq<char>>::empty());
    v
}

/// A whole number held to at least `lo`, as text.
fn at_least_text(x: i64, lo: i64) -> (s: String)
    ensures
        s@ == int_text(at_least_int(x, lo as int)),
{
    i64_text(if x < lo { lo } else { x })
}

/// The target, trimmed; `@a` when blank.
fn target_text(t: &str) -> (s: String)
    ensures
        s@ == target_spec(t@),
{
    let tt = trim(t);
    if tt.unicode_len() == 0 {
        string_from("@a")
    } else {
        tt
    }
}

/// `key=` and the first line, when there is one.
fn name_component(key: &str, lines: &Vec<RichLine>, snbt: bool, tp: &TextProfile, warnings: &mut Vec<String>) -> (v: Vec<
    String,
>)
    ensures
        texts(v@) == name_part(key@, lines@, snbt, *tp).0,
        texts(final(warnings)@) == texts(old(warnings)@) + warnings_of(name_part(key@, lines@, snbt, *tp).1),
{
    if lines.len() > 0 {
        let t = serialize_text(&lines[0], snbt, tp, warnings);
        one(eqp_of(key, t.as_str()))
    } else {
        assert(texts(warnings@) =~= texts(old(warnings)@) + warnings_of(0));
        none()
    }
}

/// `lore=[...]` when there are lore lines.
fn lore_component(lines: &Vec<RichLine>, snbt: bool, tp: &TextProfile, warnings: &mut Vec<String>) -> (v: Vec<String>)
    ensures
        texts(v@) == lore_part(lines@, snbt, *tp).0,
        texts(final(warnings)@) == texts(old(warnings)@) + warnings_of(lore_part(lines@, snbt, *tp).1),
{
    assert(texts(warnings@) =~= texts(old(warnings)@) + warnings_of(0));
    if lines.len() == 0 {
        return none();
    }
    let mut xs: Vec<String> = Vec::new();
    let mut i: usize = 0;
    assert(lines@.subrange(0, 0) =~= Seq::<RichLine>::empty());
    assert(texts(xs@) =~= Seq::<Seq<char>>::empty());
    while i < lines.len()
        invariant
            i <= lines@.len(),
            texts(xs@) == lore_texts(lines@.subrange(0, i as int), snbt, *tp).0,
            texts(warnings@) == texts(old(warnings)@) + warnings_of(lore_texts(lines@.subrange(0, i as int), snbt, *tp).1),
        decreases lines@.len() - i,
    {
        let t = serialize_text(&lines[i], snbt, tp, warnings);
        proof {
            let sub = lines@.subrange(0, i + 1);
            assert(sub.drop_last() =~= lines@.subrange(0, i as int));
            assert(sub.last() == lines@[i as int]);
            assert(warnings_of(lore_texts(lines@.subrange(0, i as int), snbt, *tp).1) + warnings_of(
                text_spec(views(lines@[i as int]@), snbt, *tp).1,
            ) =~= warnings_of(lore_texts(sub, snbt, *tp).1));
        }
        push_text(&mut xs, t);
        i = i + 1;
    }
    assert(lines@.subrange(0, lines@.len() as int) =~= lines@);
    let a = arr_of(&xs);
    one(eqp_of("lore", a.as_str()))
}

/// `rarity=` unless `none`.
fn rarity_component(f: &GiveForm) -> (v: Vec<String>)
    ensures
        texts(v@) == rarity_part(*f),
{
    let r = pair_value(RARITIES.as_slice(), f.rarity.as_str());
    if !str_eq(r.as_str(), "none") {
        one(eqp_of("rarity", r.as_str()))
    } else {
        none()
    }
}

/// `enchantment_glint_override=` unless left at its default.
fn glint_component(f: &GiveForm) -> (v: Vec<String>)
    ensures
        texts(v@) == glint_part(*f),
{
    if !str_eq(f.glint.as_str(), "默认") {
        let on = str_eq(f.glint.as_str(), "开启");
        one(eqp_of("enchantment_glint_override", if on { "true" } else { "false" }))
    } else {
        none()
    }
}

/// `enchantments=`.
fn enchant_component(f: &GiveForm, table: &[(&str, &str)], legacy: bool) -> (v: Vec<String>)
    ensures
        texts(v@) == enchant_part(*f, table@, legacy),
{
    let rows = &f.enchantments;
    let mut es: Vec<String> = Vec::new();
    let mut i: usize = 0;
    assert(rows@.subrange(0, 0) =~= Seq::<EnchantRow>::empty());
    assert(texts(es@) =~= Seq::<Seq<char>>::empty());
    while i < rows.len()
        invariant
            i <= rows@.len(),
            *rows == f.enchantments,
            texts(es@) == enchant_entries(rows@.subrange(0, i as int), table@),
        decreases rows@.len() - i,
    {
        let r = &rows[i];
        proof {
            let sub = rows@.subrange(0, i + 1);
            assert(sub.drop_last() =~= rows@.subrange(0, i as int));
            assert(sub.last() == rows@[i as int]);
        }
        if !is_blank(r.id.as_str()) {
            let id = component_id(map_catalog(table, r.id.as_str()).as_str());
            let lv = i64_text(normalize_int(&r.level, 1, 1));
            push_text(&mut es, kv_of(id.as_str(), lv.as_str()));
        }
        i = i + 1;
    }
    assert(rows@.subrange(0, rows@.len() as int) =~= rows@);
    if es.len() == 0 {
        return none();
    }
    let o = obj_of(&es);
    if legacy {
        let mut t = string_from("{levels:");
        push_str(&mut t, o.as_str());
        push_str(&mut t, "}");
        one(eqp_of("enchantments", t.as_str()))
    } else {
        one(eqp_of("enchantments", o.as_str()))
    }
}

/// The legacy name of an attribute id, if it has one.
fn legacy_name_of(id: &str) -> (r: Option<&'static str>)
    ensures
        match r {
            Some(n) => legacy_name(LEGACY_ATTRIBUTE_NAMES@, id@) == Some(n@),
            None => legacy_name(LEGACY_ATTRIBUTE_NAMES@, id@) is None,
        },
{
    let pairs = LEGACY_ATTRIBUTE_NAMES.as_slice();
    let mut i: usize = 0;
    assert(pairs@.subrange(0, pairs@.len() as int) =~= pairs@);
    while i < pairs.len()
        invariant
            i <= pairs@.len(),
            pairs@ == LEGACY_ATTRIBUTE_NAMES@,
            legacy_name(pairs@, id@) == legacy_name(pairs@.subrange(i as int, pairs@.len() as int), id@),
        decreases pairs@.len() - i,
    {
        let (k, n) = pairs[i];
        proof {
            let rest = pairs@.subrange(i as int, pairs@.len() as int);
            assert(rest.drop_first() =~= pairs@.subrange(i + 1, pairs@.len() as int));
            assert(rest[0] == pairs@[i as int]);
        }
        if str_eq(k, id) {
            return Some(n);
        }
        i = i + 1;
    }
    None
}

/// The attribute type of the 1.21 legacy family.
pub fn legacy_attribute_type(value: &str, table: &[(&str, &str)]) -> (s: String)
    ensures
        s@ == legacy_attribute_spec(value@, table@),
{
    let id = component_id(map_catalog(table, value).as_str());
    if contains_char(id.as_str(), '.') {
        return id;
    }
    match legacy_name_of(id.as_str()) {
        Some(n) => string_from(n),
        None => {
            let mut s = string_from("generic.");
            push_str(&mut s, id.as_str());
            s
        },
    }
}

/// `{blocks:"id"}` for each row of kind `want` (or `both`) that names a block.
fn predicate_list(rows: &Vec<BlockLimitRow>, want: &str, table: &[(&str, &str)]) -> (v: Vec<String>)
    ensures
        texts(v@) == predicates(rows@, want@, table@),
{
    let mut out: Vec<String> = Vec::new();
    let mut i: usize = 0;
    assert(rows@.subrange(0, 0) =~= Seq::<BlockLimitRow>::empty());
    assert(texts(out@) =~= Seq::<Seq<char>>::empty());
    while i < rows.len()
        invariant
            i <= rows@.len(),
            texts(out@) == predicates(rows@.subrange(0, i as int), want@, table@),
        decreases rows@.len() - i,
    {
        let r = &rows[i];
        proof {
            let sub = rows@.subrange(0, i + 1);
            assert(sub.drop_last() =~= rows@.subrange(0, i as int));
            assert(sub.last() == rows@[i as int]);
        }
        let kind = pair_value(LIMIT_TYPES.as_slice(), r.limit_type.as_str());
        if (str_eq(kind.as_str(), want) || str_eq(kind.as_str(), "both")) && !is_blank(r.block.as_str()) {
            let id = map_catalog(table, r.block.as_str());
            let mut t = string_from("{blocks:");
            push_str(&mut t, quote(id.as_str()).as_str());
            push_str(&mut t, "}");
            push_text(&mut out, t);
        }
        i = i + 1;
    }
    assert(rows@.subrange(0, rows@.len() as int) =~= rows@);
    out
}

/// A predicate list, wrapped where the version wants it.
fn wrapped_of(preds: &Vec<String>, wrapper: bool) -> (s: String)
    ensures
        s@ == wrapped(texts(preds@), wrapper),
{
    let a = arr_of(preds);
    if wrapper {
        let mut t = string_from("{predicates:");
        push_str(&mut t, a.as_str());
        push_str(&mut t, "}");
        t
    } else {
        a
    }
}

/// `can_place_on=` and `can_break=`.
fn limits_component(f: &GiveForm, table: &[(&str, &str)], wrapper: bool) -> (v: Vec<String>)
    ensures
        texts(v@) == limits_part(*f, table@, wrapper),
{
    let place = predicate_list(&f.block_limits, "place", table);
    let brk = predicate_list(&f.block_limits, "break", table);
    let mut v = none();
    if place.len() > 0 {
        push_text(&mut v, eqp_of("can_place_on", wrapped_of(&place, wrapper).as_str()));
    }
    if brk.len() > 0 {
        push_text(&mut v, eqp_of("can_break", wrapped_of(&brk, wrapper).as_str()));
    }
    assert(texts(v@) =~= limits_part(*f, table@, wrapper));
    v
}

/// `unbreakable={}` and `custom_data=`.
fn flags_component(f: &GiveForm) -> (v: Vec<String>)
    ensures
        texts(v@) == flags_part(*f),
{
    let mut v = none();
    if f.unbreakable {
        push_text(&mut v, string_from("unbreakable={}"));
    }
    let cd = trim(f.custom_data.as_str());
    if cd.unicode_len() > 0 {
        push_text(&mut v, eqp_of("custom_data", cd.as_str()));
    }
    assert(texts(v@) =~= flags_part(*f));
    v
}

/// The durability and stack components that are on.
fn counts_component(f: &GiveForm) -> (v: Vec<String>)
    ensures
        texts(v@) == counts_part(*f),
{
    let mut v = none();
    if f.damage_enabled {
        push_text(&mut v, eqp_of("damage", at_least_text(f.damage, 0).as_str()));
    }
    if f.max_damage_enabled {
        push_text(&mut v, eqp_of("max_damage", at_least_text(f.max_damage, 1).as_str()));
    }
    if f.stack_enabled {
        push_text(&mut v, eqp_of("max_stack_size", at_least_text(f.max_stack_size, 1).as_str()));
    }
    if f.repair_enabled {
        push_text(&mut v, eqp_of("repair_cost", at_least_text(f.repair_cost, 0).as_str()));
    }
    assert(texts(v@) =~= counts_part(*f));
    v
}

/// `tooltip_display={hidden_components:[...]}`.
fn tooltip_component(f: &GiveForm) -> (v: Vec<String>)
    ensures
        texts(v@) == tooltip_part(*f),
{
    let hidden = split_csv_str(f.hidden_components.as_str());
    if hidden.len() == 0 {
        return none();
    }
    let mut qs: Vec<String> = Vec::new();
    let mut i: usize = 0;
    while i < hidden.len()
        invariant
            i <= hidden@.len(),
            texts(qs@) == Seq::new(i as nat, |j: int| json_quoted(namespaced_spec(texts(hidden@)[j]))),
        decreases hidden@.len() - i,
    {
        push_text(&mut qs, quote(namespaced(hidden[i].as_str()).as_str()));
        i = i + 1;
        assert(texts(qs@) =~= Seq::new(i as nat, |j: int| json_quoted(namespaced_spec(texts(hidden@)[j]))));
    }
    assert(texts(qs@) =~= Seq::new(
        csv_items(f.hidden_components@).len(),
        |j: int| json_quoted(namespaced_spec(csv_items(f.hidden_components@)[j])),
    ));
    let a = arr_of(&qs);
    let mut t = string_from("{hidden_components:");
    push_str(&mut t, a.as_str());
    push_str(&mut t, "}");
    let r = one(eqp_of("tooltip_display", t.as_str()));
    assert(texts(r@) =~= tooltip_part(*f));
    r
}

/// The nutrition, saturation and always-eat fields.
fn food_field_list(f: &GiveForm) -> (v: Vec<String>)
    ensures
        texts(v@) == food_fields(*f),
{
    let mut v = none();
    push_text(&mut v, kv_of("nutrition", at_least_text(f.nutrition, 0).as_str()));
    push_text(&mut v, kv_of("saturation", f.saturation.fixed_text().as_str()));
    if !str_eq(f.always_eat.as_str(), "默认") {
        let yes = str_eq(f.always_eat.as_str(), "是");
        push_text(&mut v, kv_of("can_always_eat", if yes { "1b" } else { "0b" }));
    }
    assert(texts(v@) =~= food_fields(*f));
    v
}

/// Lower-case hexadecimal digits of `n` (`{:x}`).
pub open spec fn hex_digits(n: nat) -> Seq<char>
    decreases n,
{
    let d = n % 16;
    let c = (if d < 10 { 48 + d } else { 87 + d }) as char;
    if n < 16 {
        seq![c]
    } else {
        hex_digits(n / 16).push(c)
    }
}

fn push_hex(s: &mut String, n: u128)
    ensures
        final(s)@ == old(s)@ + hex_digits(n as nat),
    decreases n,
{
    let d = (n % 16) as u32;
    let c = if d < 10 { (48 + d) as u8 as char } else { (87 + d) as u8 as char };
    if n >= 16 {
        push_hex(s, n / 16);
    }
    push_char(s, c);
    assert(s@ =~= old(s)@ + hex_digits(n as nat));
}

/// A fresh modifier id, `<clock nanoseconds>-<counter>` in hexadecimal: unique within a command
/// by the counter, across commands by the clock.
fn fresh_modifier_id(counter: u64) -> (s: String)
    ensures
        exists|t: nat| s@ == hex_digits(t) + "-"@ + hex_digits(counter as nat),
{
    let t = now_nanos();
    let mut s = String::new();
    push_hex(&mut s, t);
    push_str(&mut s, "-");
    push_hex(&mut s, counter as u128);
    assert(s@ =~= hex_digits(t as nat) + "-"@ + hex_digits(counter as nat));
    s
}

/// One attribute modifier with its id.
fn attribute_entry_text(r: &AttributeRow, id: &str, table: &[(&str, &str)], legacy: bool) -> (s: String)
    ensures
        s@ == attribute_entry(*r, id@, table@, legacy),
{
    let ty = if legacy {
        quote(legacy_attribute_type(r.attribute_type.as_str(), table).as_str())
    } else {
        component_id(map_catalog(table, r.attribute_type.as_str()).as_str())
    };
    let mut fields = none();
    push_text(&mut fields, kv_of("type", ty.as_str()));
    push_text(&mut fields, kv_of("amount", fmt_number(&r.amount).as_str()));
    let slot_input = if is_blank(r.slot.as_str()) {
        string_from(if legacy { "any" } else { "任意" })
    } else {
        string_from(r.slot.as_str())
    };
    let slot = pair_value(SLOTS.as_slice(), slot_input.as_str());
    if slot.unicode_len() > 0 && !str_eq(slot.as_str(), "any") {
        push_text(&mut fields, kv_of("slot", slot.as_str()));
    }
    push_text(&mut fields, kv_of("id", quote(id).as_str()));
    let op_input = if is_blank(r.operation.as_str()) {
        string_from(if legacy { "add_value" } else { "加算" })
    } else {
        string_from(r.operation.as_str())
    };
    let op = pair_value(OPERATIONS.as_slice(), op_input.as_str());
    push_text(&mut fields, kv_of("operation", op.as_str()));
    assert(texts(fields@) =~= seq![kv("type"@, ty@), kv("amount"@, number_text(r.amount@))] + slot_field(*r, legacy)
        + seq![kv("id"@, json_quoted(id@)), kv("operation"@, operation_of(*r, legacy))]);
    obj_of(&fields)
}

/// One wrapping increment of a counter at serial `n` after `start` gives serial `n + 1`.
proof fn lemma_serial_step(start: u64, n: int, c: u64)
    requires
        0 <= n,
        c == serial_after(start, n),
    ensures
        vstd::wrapping::u64_specs::wrapping_add(c, 1) == serial_after(start, n + 1),
{
    let m: int = 0x1_0000_0000_0000_0000;
    let a: int = start + n;
    assert(a % m == c);
    assert((a + 1) % m == if c + 1 == m { 0 } else { c + 1 }) by (nonlinear_arith)
        requires
            a >= 0,
            m > 0,
            c == a % m,
            0 <= c < m,
    {
        vstd::arithmetic::div_mod::lemma_fundamental_div_mod(a, m);
        vstd::arithmetic::div_mod::lemma_fundamental_div_mod(a + 1, m);
    }
}

/// `attribute_modifiers=`, with the ids generated for the rows without one.
fn attribute_component(f: &GiveForm, table: &[(&str, &str)], legacy: bool, id_counter: &mut u64) -> (r: (
    Vec<String>,
    Ghost<Seq<Seq<char>>>,
))
    ensures
        texts(r.0@) == attribute_part(*f, r.1@, table@, legacy),
        r.1@.len() == blank_ids(f.attributes@),
        fresh_ids(r.1@, *old(id_counter)),
        *final(id_counter) == serial_after(*old(id_counter), r.1@.len() as int),
{
    let rows = &f.attributes;
    let mut es: Vec<String> = Vec::new();
    let ghost mut ids: Seq<Seq<char>> = seq![];
    let ghost start: u64 = *id_counter;
    let mut i: usize = 0;
    assert(rows@.subrange(0, 0) =~= Seq::<AttributeRow>::empty());
    assert(texts(es@) =~= Seq::<Seq<char>>::empty());
    assert(*id_counter == serial_after(start, 0)) by (nonlinear_arith)
        requires
            *id_counter == start,
    ;
    while i < rows.len()
        invariant
            i <= rows@.len(),
            texts(es@) == attribute_entries(rows@.subrange(0, i as int), ids, table@, legacy),
            ids.len() == blank_ids(rows@.subrange(0, i as int)),
            fresh_ids(ids, start),
            *id_counter == serial_after(start, ids.len() as int),
        decreases rows@.len() - i,
    {
        let r = &rows[i];
        proof {
            let sub = rows@.subrange(0, i + 1);
            assert(sub.drop_last() =~= rows@.subrange(0, i as int));
            assert(sub.last() == rows@[i as int]);
        }
        if !is_blank(r.attribute_type.as_str()) {
            if is_blank(r.id.as_str()) {
                let id = fresh_modifier_id(*id_counter);
                let ghost before = *id_counter;
                *id_counter = id_counter.wrapping_add(1);
                let e = attribute_entry_text(r, id.as_str(), table, legacy);
                proof {
                    let old_ids = ids;
                    let n = old_ids.len() as int;
                    lemma_serial_step(start, n, before);
                    ids = ids.push(id@);
                    assert(ids.drop_last() =~= old_ids);
                    assert forall|k: int| 0 <= k < ids.len() implies exists|t: nat|
                        #![trigger hex_digits(t)]
                        #[trigger] ids[k] == hex_digits(t) + "-"@ + hex_digits(serial_after(start, k)) by {
                        if k < n {
                            assert(ids[k] == old_ids[k]);
                        }
                    }
                }
                push_text(&mut es, e);
            } else {
                let e = attribute_entry_text(r, r.id.as_str(), table, legacy);
                push_text(&mut es, e);
            }
        }
        i = i + 1;
    }
    assert(rows@.subrange(0, rows@.len() as int) =~= rows@);
    if es.len() == 0 {
        return (none(), Ghost(ids));
    }
    let a = arr_of(&es);
    let v = if legacy {
        let mut t = string_from("{modifiers:");
        push_str(&mut t, a.as_str());
        push_str(&mut t, "}");
        one(eqp_of("attribute_modifiers", t.as_str()))
    } else {
        one(eqp_of("attribute_modifiers", a.as_str()))
    };
    (v, Ghost(ids))
}

/// `ShowParticles`/`ShowIcon` default: shown.
fn shown(b: Option<bool>) -> (r: bool)
    ensures
        r == match b {
            Some(x) => x,
            None => true,
        },
{
    match b {
        Some(x) => x,
        None => true,
    }
}

/// The full effects of a group.
fn full_effect_list(es: &Vec<EffectEntry>) -> (v: Vec<String>)
    ensures
        texts(v@) == full_effects(es@),
{
    let mut out = none();
    let mut i: usize = 0;
    assert(es@.subrange(0, 0) =~= Seq::<EffectEntry>::empty());
    while i < es.len()
        invariant
            i <= es@.len(),
            texts(out@) == full_effects(es@.subrange(0, i as int)),
        decreases es@.len() - i,
    {
        proof {
            let sub = es@.subrange(0, i + 1);
            assert(sub.drop_last() =~= es@.subrange(0, i as int));
            assert(sub.last() == es@[i as int]);
        }
        match &es[i] {
            EffectEntry::Full { id, duration, amplifier, show_particles, show_icon } => {
                let cid = component_id(id.as_str());
                if cid.unicode_len() > 0 {
                    let mut t = string_from("{id:");
                    push_str(&mut t, cid.as_str());
                    push_str(&mut t, ",duration:");
                    push_str(&mut t, i64_text(normalize_int(duration, 0, 0)).as_str());
                    push_str(&mut t, ",amplifier:");
                    push_str(&mut t, i64_text(normalize_int(amplifier, 0, 0)).as_str());
                    push_str(&mut t, ",ShowParticles:");
                    push_str(&mut t, bool_byte(shown(*show_particles)));
                    push_str(&mut t, ",ShowIcon:");
                    push_str(&mut t, bool_byte(shown(*show_icon)));
                    push_str(&mut t, "}");
                    push_text(&mut out, t);
                }
            },
            EffectEntry::Id(_) => {},
        }
        i = i + 1;
    }
    assert(es@.subrange(0, es@.len() as int) =~= es@);
    out
}

/// The id of an effect entry.
fn entry_id_of(e: &EffectEntry) -> (s: &str)
    ensures
        s@ == entry_id(*e),
{
    match e {
        EffectEntry::Id(s) => s.as_str(),
        EffectEntry::Full { id, .. } => id.as_str(),
    }
}

/// The non-blank component ids of the effects.
fn effect_id_list(es: &Vec<EffectEntry>) -> (v: Vec<String>)
    ensures
        texts(v@) == effect_ids(es@),
{
    let mut out = none();
    let mut i: usize = 0;
    assert(es@.subrange(0, 0) =~= Seq::<EffectEntry>::empty());
    while i < es.len()
        invariant
            i <= es@.len(),
            texts(out@) == effect_ids(es@.subrange(0, i as int)),
        decreases es@.len() - i,
    {
        proof {
            let sub = es@.subrange(0, i + 1);
            assert(sub.drop_last() =~= es@.subrange(0, i as int));
            assert(sub.last() == es@[i as int]);
        }
        let cid = component_id(entry_id_of(&es[i]));
        if cid.unicode_len() > 0 {
            push_text(&mut out, cid);
        }
        i = i + 1;
    }
    assert(es@.subrange(0, es@.len() as int) =~= es@);
    out
}

/// The consume/death effect of one group.
fn group_json(g: &EffectGroup) -> (v: Vec<String>)
    ensures
        texts(v@) == group_text(*g),
{
    let ty = g.group_type.as_str();
    if str_eq(ty, "apply_effects") {
        let es = full_effect_list(&g.effects);
        if es.len() > 0 {
            let mut t = string_from("{type:apply_effects,probability:");
            push_str(&mut t, percent_to_probability(&g.probability_percent).as_str());
            push_str(&mut t, ",effects:");
            push_str(&mut t, arr_of(&es).as_str());
            push_str(&mut t, "}");
            one(t)
        } else {
            none()
        }
    } else if str_eq(ty, "remove_effects") {
        let ids = effect_id_list(&g.effects);
        if ids.len() > 0 {
            let mut t = string_from("{type:remove_effects,effects:");
            push_str(&mut t, arr_of(&ids).as_str());
            push_str(&mut t, "}");
            one(t)
        } else {
            none()
        }
    } else if str_eq(ty, "clear_all_effects") {
        one(string_from("{type:clear_all_effects}"))
    } else if str_eq(ty, "teleport_randomly") {
        let d = if g.diameter.is_null() {
            fmt_number(&JsonValue::Number(Decimal { mantissa: 16, exponent: 0 }))
        } else {
            fmt_number(&g.diameter)
        };
        let mut t = string_from("{type:teleport_randomly,diameter:");
        push_str(&mut t, d.as_str());
        push_str(&mut t, "}");
        one(t)
    } else {
        none()
    }
}

/// The effects of every group, in order.
fn groups_json(gs: &Vec<EffectGroup>) -> (v: Vec<String>)
    ensures
        texts(v@) == groups_text(gs@),
{
    let mut out = none();
    let mut i: usize = 0;
    assert(gs@.subrange(0, 0) =~= Seq::<EffectGroup>::empty());
    while i < gs.len()
        invariant
            i <= gs@.len(),
            texts(out@) == groups_text(gs@.subrange(0, i as int)),
        decreases gs@.len() - i,
    {
        proof {
            let sub = gs@.subrange(0, i + 1);
            assert(sub.drop_last() =~= gs@.subrange(0, i as int));
            assert(sub.last() == gs@[i as int]);
        }
        let g = group_json(&gs[i]);
        append_texts(&mut out, g);
        i = i + 1;
    }
    assert(gs@.subrange(0, gs@.len() as int) =~= gs@);
    out
}

/// The legacy food effects of one group's entries.
fn legacy_group_list(es: &Vec<EffectEntry>, probability: &str) -> (v: Vec<String>)
    ensures
        texts(v@) == legacy_group_effects(es@, probability@),
{
    let mut out = none();
    let mut i: usize = 0;
    assert(es@.subrange(0, 0) =~= Seq::<EffectEntry>::empty());
    while i < es.len()
        invariant
            i <= es@.len(),
            texts(out@) == legacy_group_effects(es@.subrange(0, i as int), probability@),
        decreases es@.len() - i,
    {
        proof {
            let sub = es@.subrange(0, i + 1);
            assert(sub.drop_last() =~= es@.subrange(0, i as int));
            assert(sub.last() == es@[i as int]);
        }
        let e = &es[i];
        let cid = component_id(entry_id_of(e));
        if cid.unicode_len() > 0 {
            let mut fields = none();
            push_text(&mut fields, kv_of("id", cid.as_str()));
            match e {
                EffectEntry::Full { duration, amplifier, show_particles, show_icon, .. } => {
                    push_text(&mut fields, kv_of("duration", i64_text(normalize_int(duration, 0, 0)).as_str()));
                    push_text(&mut fields, kv_of("amplifier", i64_text(normalize_int(amplifier, 0, 0)).as_str()));
                    push_text(&mut fields, kv_of("ShowParticles", bool_byte(shown(*show_particles))));
                    push_text(&mut fields, kv_of("ShowIcon", bool_byte(shown(*show_icon))));
                    assert(texts(fields@) =~= seq![kv("id"@, cid@)] + seq![
                        kv("duration"@, int_text(int_or(duration@, 0, 0) as int)),
                        kv("amplifier"@, int_text(int_or(amplifier@, 0, 0) as int)),
                        kv("ShowParticles"@, bool_byte_spec(match *show_particles { Some(b) => b, None => true })),
                        kv("ShowIcon"@, bool_byte_spec(match *show_icon { Some(b) => b, None => true })),
                    ]);
                },
                EffectEntry::Id(_) => {
                    assert(texts(fields@) =~= seq![kv("id"@, cid@)] + Seq::<Seq<char>>::empty());
                },
            }
            let mut t = string_from("{effect:");
            push_str(&mut t, obj_of(&fields).as_str());
            push_str(&mut t, ",probability:");
            push_str(&mut t, probability);
            push_str(&mut t, "}");
            push_text(&mut out, t);
        }
        i = i + 1;
    }
    assert(es@.subrange(0, es@.len() as int) =~= es@);
    out
}

/// The food effects of the 1.21 legacy family.
fn legacy_food_effect_list(gs: &Vec<EffectGroup>) -> (v: Vec<String>)
    ensures
        texts(v@) == legacy_food_effects(gs@),
{
    let mut out = none();
    let mut i: usize = 0;
    assert(gs@.subrange(0, 0) =~= Seq::<EffectGroup>::empty());
    while i < gs.len()
        invariant
            i <= gs@.len(),
            texts(out@) == legacy_food_effects(gs@.subrange(0, i as int)),
        decreases gs@.len() - i,
    {
        proof {
            let sub = gs@.subrange(0, i + 1);
            assert(sub.drop_last() =~= gs@.subrange(0, i as int));
            assert(sub.last() == gs@[i as int]);
        }
        let g = &gs[i];
        if str_eq(g.group_type.as_str(), "apply_effects") {
            let mut p = percent_to_probability(&g.probability_percent);
            push_str(&mut p, "f");
            let l = legacy_group_list(&g.effects, p.as_str());
            append_texts(&mut out, l);
        } else {
            assert(texts(out@) + Seq::<Seq<char>>::empty() =~= texts(out@));
        }
        i = i + 1;
    }
    assert(gs@.subrange(0, gs@.len() as int) =~= gs@);
    out
}

/// The strings of an array, as they are.
fn array_string_list(arr: &Vec<JsonValue>) -> (v: Vec<String>)
    ensures
        texts(v@) == array_strings(views(arr@)),
{
    proof {
        lemma_views(arr@);
    }
    let ghost vs = views(arr@);
    let mut out = none();
    let mut i: usize = 0;
    assert(vs.subrange(0, 0) =~= Seq::<JsonView>::empty());
    while i < arr.len()
        invariant
            i <= arr@.len(),
            vs == views(arr@),
            vs.len() == arr@.len(),
            forall|j: int| 0 <= j < arr@.len() ==> #[trigger] vs[j] == view_of(arr@[j]),
            texts(out@) == array_strings(vs.subrange(0, i as int)),
        decreases arr@.len() - i,
    {
        proof {
            let sub = vs.subrange(0, i + 1);
            assert(sub.drop_last() =~= vs.subrange(0, i as int));
            assert(sub.last() == view_of(arr@[i as int]));
        }
        match arr[i].as_str() {
            Some(t) => push_text(&mut out, string_from(t)),
            None => {},
        }
        i = i + 1;
    }
    assert(vs.subrange(0, arr@.len() as int) =~= vs);
    out
}

/// The block names of a tool rule.
fn rule_block_name_list(v: &JsonValue) -> (r: Vec<String>)
    ensures
        texts(r@) == rule_block_names(v@),
{
    match v {
        JsonValue::Array(arr) => array_string_list(arr),
        JsonValue::String(s) => split_csv_str(s.as_str()),
        _ => none(),
    }
}

/// The non-blank component ids of block names mapped through the catalog.
fn rule_block_id_list(names: &Vec<String>, table: &[(&str, &str)]) -> (v: Vec<String>)
    ensures
        texts(v@) == rule_block_ids(texts(names@), table@),
{
    let ghost ns = texts(names@);
    let mut out = none();
    let mut i: usize = 0;
    assert(ns.subrange(0, 0) =~= Seq::<Seq<char>>::empty());
    while i < names.len()
        invariant
            i <= names@.len(),
            ns == texts(names@),
            texts(out@) == rule_block_ids(ns.subrange(0, i as int), table@),
        decreases names@.len() - i,
    {
        proof {
            let sub = ns.subrange(0, i + 1);
            assert(sub.drop_last() =~= ns.subrange(0, i as int));
            assert(sub.last() == names@[i as int]@);
        }
        let id = component_id(map_catalog(table, names[i].as_str()).as_str());
        if id.unicode_len() > 0 {
            push_text(&mut out, id);
        }
        i = i + 1;
    }
    assert(ns.subrange(0, names@.len() as int) =~= ns);
    out
}

/// One tool rule, if it names a block.
fn rule_json(r: &ToolRuleRow, table: &[(&str, &str)]) -> (v: Vec<String>)
    ensures
        texts(v@) == rule_text(*r, table@),
{
    let names = rule_block_name_list(&r.blocks);
    let blocks = rule_block_id_list(&names, table);
    if blocks.len() == 0 {
        return none();
    }
    let mut fields = none();
    push_text(&mut fields, kv_of("blocks", arr_of(&blocks).as_str()));
    let st = value_as_text(Some(&r.speed));
    if !is_blank(st.as_str()) {
        let mut sp = fmt_number(&r.speed);
        push_str(&mut sp, "f");
        push_text(&mut fields, kv_of("speed", sp.as_str()));
    }
    let c = pair_value(CORRECT_FOR_DROPS.as_slice(), r.correct_for_drops.as_str());
    if str_eq(c.as_str(), "true") {
        push_text(&mut fields, string_from("correct_for_drops:1b"));
    } else if str_eq(c.as_str(), "false") {
        push_text(&mut fields, string_from("correct_for_drops:0b"));
    }
    proof {
        let speed = if trim_spec(value_text(Some(r.speed@))).len() > 0 {
            seq![kv("speed"@, number_text(r.speed@) + "f"@)]
        } else {
            Seq::<Seq<char>>::empty()
        };
        assert(texts(fields@) =~= seq![kv("blocks"@, arr_text(texts(blocks@)))] + speed + drops_field(*r));
    }
    one(obj_of(&fields))
}

/// The rules of the tool component.
fn rules_json(rs: &Vec<ToolRuleRow>, table: &[(&str, &str)]) -> (v: Vec<String>)
    ensures
        texts(v@) == rules_text(rs@, table@),
{
    let mut out = none();
    let mut i: usize = 0;
    assert(rs@.subrange(0, 0) =~= Seq::<ToolRuleRow>::empty());
    while i < rs.len()
        invariant
            i <= rs@.len(),
            texts(out@) == rules_text(rs@.subrange(0, i as int), table@),
        decreases rs@.len() - i,
    {
        proof {
            let sub = rs@.subrange(0, i + 1);
            assert(sub.drop_last() =~= rs@.subrange(0, i as int));
            assert(sub.last() == rs@[i as int]);
        }
        let r = rule_json(&rs[i], table);
        append_texts(&mut out, r);
        i = i + 1;
    }
    assert(rs@.subrange(0, rs@.len() as int) =~= rs@);
    out
}

/// `tool={...}`.
fn tool_component(f: &GiveForm, table: &[(&str, &str)]) -> (v: Vec<String>)
    ensures
        texts(v@) == tool_part(*f, table@),
{
    let rules = rules_json(&f.tool_rules, table);
    if !f.tool_enabled && rules.len() == 0 {
        return none();
    }
    let mut fields = none();
    if f.tool_enabled {
        push_text(&mut fields, kv_of("default_mining_speed", f.default_mining_speed.fixed_text().as_str()));
        push_text(&mut fields, kv_of("damage_per_block", at_least_text(f.damage_per_block, 0).as_str()));
    }
    let ghost own = texts(fields@);
    if rules.len() > 0 {
        push_text(&mut fields, kv_of("rules", arr_of(&rules).as_str()));
    }
    proof {
        assert(texts(fields@) =~= (if f.tool_enabled {
            seq![
                kv("default_mining_speed"@, f.default_mining_speed.fixed()),
                kv("damage_per_block"@, int_text(at_least_int(f.damage_per_block, 0))),
            ]
        } else {
            Seq::<Seq<char>>::empty()
        }) + (if rules@.len() > 0 {
            seq![kv("rules"@, arr_text(texts(rules@)))]
        } else {
            Seq::<Seq<char>>::empty()
        }));
    }
    one(eqp_of("tool", obj_of(&fields).as_str()))
}

/// `death_protection=`.
fn death_component(f: &GiveForm, p: &ModernProfile) -> (v: Vec<String>)
    ensures
        texts(v@) == death_part(*f, *p),
{
    let de = groups_json(&f.death_effects);
    if p.supports_death_protection && (f.death_protection || de.len() > 0) {
        if de.len() == 0 {
            one(string_from("death_protection={}"))
        } else {
            let mut t = string_from("{death_effects:");
            push_str(&mut t, arr_of(&de).as_str());
            push_str(&mut t, "}");
            one(eqp_of("death_protection", t.as_str()))
        }
    } else {
        none()
    }
}

/// `consumable=`.
fn consumable_component(f: &GiveForm, p: &ModernProfile) -> (v: Vec<String>)
    ensures
        texts(v@) == consumable_part(*f, *p),
{
    let ce = groups_json(&f.consume_effects);
    if !(p.supports_consumable && (f.consumable_enabled || ce.len() > 0)) {
        return none();
    }
    let mut fields = none();
    if f.consumable_enabled {
        push_text(&mut fields, kv_of("consume_seconds", f.consume_seconds.fixed_text().as_str()));
        let snd = trim(f.consume_sound.as_str());
        if snd.unicode_len() > 0 {
            push_text(&mut fields, kv_of("sound", quote(namespaced(snd.as_str()).as_str()).as_str()));
        }
        if !str_eq(f.consume_particles.as_str(), "默认") {
            let yes = str_eq(f.consume_particles.as_str(), "是");
            push_text(&mut fields, kv_of("has_consume_particles", if yes { "1b" } else { "0b" }));
        }
    }
    let ghost own = texts(fields@);
    if ce.len() > 0 {
        push_text(&mut fields, kv_of("on_consume_effects", arr_of(&ce).as_str()));
    }
    proof {
        let own_spec = if f.consumable_enabled {
            seq![kv("consume_seconds"@, f.consume_seconds.fixed())] + (if trim_spec(f.consume_sound@).len() > 0 {
                seq![kv("sound"@, json_quoted(namespaced_spec(trim_spec(f.consume_sound@))))]
            } else {
                Seq::<Seq<char>>::empty()
            }) + (if f.consume_particles@ != "默认"@ {
                seq![kv("has_consume_particles"@, yes_byte(f.consume_particles@))]
            } else {
                Seq::<Seq<char>>::empty()
            })
        } else {
            Seq::<Seq<char>>::empty()
        };
        assert(own =~= own_spec);
        assert(texts(fields@) =~= own_spec + if ce@.len() > 0 {
            seq![kv("on_consume_effects"@, arr_text(texts(ce@)))]
        } else {
            Seq::<Seq<char>>::empty()
        });
    }
    one(eqp_of("consumable", obj_of(&fields).as_str()))
}

/// `food=` of the 1.21 legacy family.
fn legacy_food_component(f: &GiveForm) -> (v: Vec<String>)
    ensures
        texts(v@) == legacy_food_part(*f),
{
    let fe = legacy_food_effect_list(&f.consume_effects);
    if !f.food_enabled && !f.consumable_enabled && fe.len() == 0 {
        return none();
    }
    let mut fields = food_field_list(f);
    let ghost base = texts(fields@);
    if f.consumable_enabled {
        push_text(&mut fields, kv_of("eat_seconds", f.consume_seconds.fixed_text().as_str()));
    }
    let ghost mid = texts(fields@);
    if fe.len() > 0 {
        push_text(&mut fields, kv_of("effects", arr_of(&fe).as_str()));
    }
    proof {
        assert(texts(fields@) =~= food_fields(*f) + (if f.consumable_enabled {
            seq![kv("eat_seconds"@, f.consume_seconds.fixed())]
        } else {
            Seq::<Seq<char>>::empty()
        }) + (if fe@.len() > 0 {
            seq![kv("effects"@, arr_text(texts(fe@)))]
        } else {
            Seq::<Seq<char>>::empty()
        }));
    }
    one(eqp_of("food", obj_of(&fields).as_str()))
}

/// `/give <target> <item>[components] <count>`.
fn give_line_text(f: &GiveForm, item: &str, parts: &Vec<String>) -> (s: String)
    ensures
        s@ == give_line(*f, item@, texts(parts@)),
{
    let mut s = String::new();
    if f.with_slash {
        push_str(&mut s, "/");
    }
    push_str(&mut s, "give ");
    push_str(&mut s, target_text(f.target.as_str()).as_str());
    push_str(&mut s, " ");
    push_str(&mut s, item);
    if parts.len() > 0 {
        push_str(&mut s, arr_of(parts).as_str());
    }
    push_str(&mut s, " ");
    push_str(&mut s, at_least_text(f.count, 1).as_str());
    proof {
        assert(texts(parts@).len() == parts@.len());
        assert(s@ =~= give_line(*f, item@, texts(parts@)));
    }
    s
}

/// The text, enchantment and attribute components of the modern families.
fn modern_head_components(
    f: &GiveForm,
    p: &ModernProfile,
    t: &GiveTables,
    warnings: &mut Vec<String>,
    id_counter: &mut u64,
) -> (r: (Vec<String>, Ghost<Seq<Seq<char>>>))
    ensures
        texts(r.0@) == modern_head(*f, *p, *t, r.1@).0,
        texts(final(warnings)@) == texts(old(warnings)@) + warnings_of(modern_head(*f, *p, *t, r.1@).1),
        r.1@.len() == (if p.supports_attribute_modifiers { blank_ids(f.attributes@) } else { 0 }),
        fresh_ids(r.1@, *old(id_counter)),
        *final(id_counter) == serial_after(*old(id_counter), r.1@.len() as int),
{
    let tp = resolve_text_profile(f.version);
    let snbt = p.text_as_snbt_string;
    let ghost w0 = texts(warnings@);
    let mut parts = name_component("custom_name", &f.display_name, snbt, &tp, warnings);
    let n2 = name_component("item_name", &f.item_name, snbt, &tp, warnings);
    append_texts(&mut parts, n2);
    let lore = lore_component(&f.lore, snbt, &tp, warnings);
    append_texts(&mut parts, lore);
    proof {
        let a = name_part("custom_name"@, f.display_name@, snbt, tp).1;
        let b = name_part("item_name"@, f.item_name@, snbt, tp).1;
        let c = lore_part(f.lore@, snbt, tp).1;
        lemma_warnings_add(a, b);
        lemma_warnings_add(a + b, c);
        assert(texts(warnings@) =~= w0 + warnings_of(a + b + c));
    }
    append_texts(&mut parts, rarity_component(f));
    append_texts(&mut parts, glint_component(f));
    append_texts(&mut parts, enchant_component(f, t.enchants, false));
    let ghost mut ids: Seq<Seq<char>> = seq![];
    assert(*id_counter == serial_after(*id_counter, 0)) by (nonlinear_arith);
    if p.supports_attribute_modifiers {
        let (a, g) = attribute_component(f, t.attributes, false, id_counter);
        proof {
            ids = g@;
        }
        append_texts(&mut parts, a);
    }
    proof {
        assert(texts(parts@) =~= modern_head(*f, *p, *t, ids).0);
    }
    (parts, Ghost(ids))
}

/// The limit, flag, glider, death protection and durability components.
fn modern_middle_components(f: &GiveForm, p: &ModernProfile, t: &GiveTables) -> (v: Vec<String>)
    ensures
        texts(v@) == modern_middle(*f, *p, *t),
{
    let mut parts = limits_component(f, t.blocks, p.adventure_predicate_wrapper);
    append_texts(&mut parts, flags_component(f));
    if p.supports_glider && f.glider {
        push_text(&mut parts, string_from("glider={}"));
    }
    append_texts(&mut parts, death_component(f, p));
    append_texts(&mut parts, counts_component(f));
    proof {
        assert(texts(parts@) =~= modern_middle(*f, *p, *t));
    }
    parts
}

/// The tooltip, food, consumable and tool components.
fn modern_end_components(f: &GiveForm, p: &ModernProfile, t: &GiveTables) -> (v: Vec<String>)
    ensures
        texts(v@) == modern_end(*f, *p, *t),
{
    let mut parts = none();
    if p.supports_tooltip_display {
        append_texts(&mut parts, tooltip_component(f));
    }
    if f.food_enabled {
        let ff = food_field_list(f);
        push_text(&mut parts, eqp_of("food", obj_of(&ff).as_str()));
    }
    append_texts(&mut parts, consumable_component(f, p));
    append_texts(&mut parts, tool_component(f, t.blocks));
    proof {
        assert(texts(parts@) =~= modern_end(*f, *p, *t));
    }
    parts
}

/// The components of the modern families and the ids generated for them.
fn modern_components(
    f: &GiveForm,
    p: &ModernProfile,
    t: &GiveTables,
    warnings: &mut Vec<String>,
    id_counter: &mut u64,
) -> (r: (Vec<String>, Ghost<Seq<Seq<char>>>))
    ensures
        texts(r.0@) == modern_parts(*f, *p, *t, r.1@).0,
        texts(final(warnings)@) == texts(old(warnings)@) + warnings_of(modern_parts(*f, *p, *t, r.1@).1),
        r.1@.len() == (if p.supports_attribute_modifiers { blank_ids(f.attributes@) } else { 0 }),
        fresh_ids(r.1@, *old(id_counter)),
        *final(id_counter) == serial_after(*old(id_counter), r.1@.len() as int),
{
    let (mut parts, ids) = modern_head_components(f, p, t, warnings, id_counter);
    append_texts(&mut parts, modern_middle_components(f, p, t));
    append_texts(&mut parts, modern_end_components(f, p, t));
    proof {
        reveal(modern_parts);
    }
    (parts, ids)
}

/// The components of the 1.21 legacy family and the ids generated for them.
fn legacy_components(f: &GiveForm, t: &GiveTables, warnings: &mut Vec<String>, id_counter: &mut u64) -> (r: (
    Vec<String>,
    Ghost<Seq<Seq<char>>>,
))
    ensures
        texts(r.0@) == legacy_parts(*f, *t, r.1@).0,
        texts(final(warnings)@) == texts(old(warnings)@) + warnings_of(legacy_parts(*f, *t, r.1@).1),
        r.1@.len() == blank_ids(f.attributes@),
        fresh_ids(r.1@, *old(id_counter)),
        *final(id_counter) == serial_after(*old(id_counter), r.1@.len() as int),
{
    let tp = resolve_text_profile(f.version);
    let ghost w0 = texts(warnings@);
    let mut parts = name_component("custom_name", &f.display_name, true, &tp, warnings);
    let n2 = name_component("item_name", &f.item_name, true, &tp, warnings);
    append_texts(&mut parts, n2);
    let lore = lore_component(&f.lore, true, &tp, warnings);
    append_texts(&mut parts, lore);
    proof {
        let a = name_part("custom_name"@, f.display_name@, true, tp).1;
        let b = name_part("item_name"@, f.item_name@, true, tp).1;
        let c = lore_part(f.lore@, true, tp).1;
        lemma_warnings_add(a, b);
        lemma_warnings_add(a + b, c);
        assert(texts(warnings@) =~= w0 + warnings_of(a + b + c));
    }
    append_texts(&mut parts, rarity_component(f));
    append_texts(&mut parts, glint_component(f));
    append_texts(&mut parts, enchant_component(f, t.enchants, true));
    let (a, g) = attribute_component(f, t.attributes, true, id_counter);
    append_texts(&mut parts, a);
    append_texts(&mut parts, limits_component(f, t.blocks, true));
    append_texts(&mut parts, flags_component(f));
    append_texts(&mut parts, counts_component(f));
    append_texts(&mut parts, legacy_food_component(f));
    append_texts(&mut parts, tool_component(f, t.blocks));
    proof {
        reveal(legacy_parts);
        assert(texts(parts@) =~= legacy_parts(*f, *t, g@).0);
    }
    (parts, g)
}

/// The Bedrock block ids of the rows of kind `want` (or `both`).
fn bedrock_block_list(rows: &Vec<BlockLimitRow>, want: &str, table: &[(&str, &str)]) -> (v: Vec<String>)
    ensures
        texts(v@) == bedrock_blocks(rows@, want@, table@),
{
    let mut out = none();
    let mut i: usize = 0;
    assert(rows@.subrange(0, 0) =~= Seq::<BlockLimitRow>::empty());
    while i < rows.len()
        invariant
            i <= rows@.len(),
            texts(out@) == bedrock_blocks(rows@.subrange(0, i as int), want@, table@),
        decreases rows@.len() - i,
    {
        let r = &rows[i];
        proof {
            let sub = rows@.subrange(0, i + 1);
            assert(sub.drop_last() =~= rows@.subrange(0, i as int));
            assert(sub.last() == rows@[i as int]);
        }
        let kind = pair_value(LIMIT_TYPES.as_slice(), r.limit_type.as_str());
        if (str_eq(kind.as_str(), want) || str_eq(kind.as_str(), "both")) && !is_blank(r.block.as_str()) {
            push_text(&mut out, component_id(map_catalog(table, r.block.as_str()).as_str()));
        }
        i = i + 1;
    }
    assert(rows@.subrange(0, rows@.len() as int) =~= rows@);
    out
}

/// `{"blocks":[...]}`.
fn blocks_object_text(ids: &Vec<String>) -> (s: String)
    ensures
        s@ == blocks_object(texts(ids@)),
{
    let mut qs = none();
    let mut i: usize = 0;
    while i < ids.len()
        invariant
            i <= ids@.len(),
            texts(qs@) == Seq::new(i as nat, |j: int| json_quoted(texts(ids@)[j])),
        decreases ids@.len() - i,
    {
        push_text(&mut qs, quote(ids[i].as_str()));
        i = i + 1;
        assert(texts(qs@) =~= Seq::new(i as nat, |j: int| json_quoted(texts(ids@)[j])));
    }
    assert(texts(qs@) =~= Seq::new(texts(ids@).len(), |j: int| json_quoted(texts(ids@)[j])));
    let a = arr_of(&qs);
    let m = one(member_of("blocks", a.as_str()));
    obj_of(&m)
}

/// The Bedrock `/give` command.
fn build_bedrock(f: &GiveForm, t: &GiveTables) -> (s: String)
    ensures
        s@ == bedrock_spec(*f, *t),
{
    let place = bedrock_block_list(&f.block_limits, "place", t.bedrock_blocks);
    let brk = bedrock_block_list(&f.block_limits, "break", t.bedrock_blocks);
    let mut comps = none();
    if place.len() > 0 {
        push_text(&mut comps, member_of("minecraft:can_place_on", blocks_object_text(&place).as_str()));
    }
    if brk.len() > 0 {
        push_text(&mut comps, member_of("minecraft:can_destroy", blocks_object_text(&brk).as_str()));
    }
    let lock = pair_value(ITEM_LOCK_MODES.as_slice(), f.bedrock_item_lock.as_str());
    if !str_eq(lock.as_str(), "none") {
        let m = one(member_of("mode", quote(lock.as_str()).as_str()));
        push_text(&mut comps, member_of("minecraft:item_lock", obj_of(&m).as_str()));
    }
    if f.bedrock_keep_on_death {
        let empty = none();
        push_text(&mut comps, member_of("minecraft:keep_on_death", obj_of(&empty).as_str()));
    }
    proof {
        reveal(bedrock_spec);
        assert(texts(comps@) =~= bedrock_components(*f, *t));
    }
    let mut s = String::new();
    if f.with_slash {
        push_str(&mut s, "/");
    }
    push_str(&mut s, "give ");
    push_str(&mut s, target_text(f.target.as_str()).as_str());
    push_str(&mut s, " ");
    push_str(&mut s, component_id(map_catalog(t.bedrock_items, f.item.as_str()).as_str()).as_str());
    push_str(&mut s, " ");
    push_str(&mut s, at_least_text(f.count, 1).as_str());
    push_str(&mut s, " ");
    push_str(&mut s, at_least_text(f.bedrock_data_value, 0).as_str());
    if comps.len() > 0 {
        push_str(&mut s, " ");
        push_str(&mut s, obj_of(&comps).as_str());
    }
    assert(s@ =~= bedrock_spec(*f, *t));
    s
}

/// The `/give` command of a form in the syntax of its version, with the warnings of its text
/// (an object component on a version without them). Attribute modifiers without an id get a
/// fresh one, numbered on from `id_counter`, which the caller keeps for the whole process so
/// that ids stay distinct across commands; the command is fixed up to those ids.
pub fn build_give_command(form: &GiveForm, tables: &GiveTables, warnings: &mut Vec<String>, id_counter: &mut u64) -> (cmd:
    String)
    ensures
        exists|ids: Seq<Seq<char>>|
            {
                &&& cmd@ == give_spec(*form, *tables, ids).0
                &&& texts(final(warnings)@) == texts(old(warnings)@) + warnings_of(
                    #[trigger] give_spec(*form, *tables, ids).1,
                )
                &&& ids.len() == wanted_ids(*form)
                &&& fresh_ids(ids, *old(id_counter))
                &&& *final(id_counter) == serial_after(*old(id_counter), ids.len() as int)
            },
{
    assert(*id_counter == serial_after(*id_counter, 0)) by (nonlinear_arith);
    if form.version == GiveVersion::Bedrock {
        let s = build_bedrock(form, tables);
        assert(texts(warnings@) =~= texts(old(warnings)@) + warnings_of(0));
        assert(s@ == give_spec(*form, *tables, seq![]).0 && texts(warnings@) == texts(old(warnings)@) + warnings_of(
            give_spec(*form, *tables, seq![]).1,
        ));
        return s;
    }
    let item = map_catalog(tables.items, form.item.as_str());
    if is_java121_legacy_family(form.version) {
        let (parts, ids) = legacy_components(form, tables, warnings, id_counter);
        let s = give_line_text(form, item.as_str(), &parts);
        assert(s@ == give_spec(*form, *tables, ids@).0 && texts(warnings@) == texts(old(warnings)@) + warnings_of(
            give_spec(*form, *tables, ids@).1,
        ));
        return s;
    }
    let p = crate::give::builder::get_modern_profile(form.version);
    let (parts, ids) = modern_components(form, &p, tables, warnings, id_counter);
    let s = give_line_text(form, item.as_str(), &parts);
    assert(s@ == give_spec(*form, *tables, ids@).0 && texts(warnings@) == texts(old(warnings)@) + warnings_of(
        give_spec(*form, *tables, ids@).1,
    ));
    s
}

proof fn lemma_contains_after(a: Seq<Seq<char>>, b: Seq<Seq<char>>, x: Seq<char>)
    requires
        a.contains(x),
    ensures
        (a + b).contains(x),
{
    let i = choose|i: int| 0 <= i < a.len() && a[i] == x;
    assert((a + b)[i] == x);
}

proof fn lemma_contains_last(a: Seq<Seq<char>>, x: Seq<char>)
    ensures
        (a + seq![x]).contains(x),
{
    assert((a + seq![x])[a.len() as int] == x);
}

/// A glint other than the default is always written out: the components of every Java
/// `/give` command carry `enchantment_glint_override=true` for "开启" and
/// `enchantment_glint_override=false` for any other choice.
pub proof fn lemma_glint_written(f: GiveForm, t: GiveTables, ids: Seq<Seq<char>>)
    requires
        f.version != GiveVersion::Bedrock,
        f.glint@ != "默认"@,
    ensures
        exists|parts: Seq<Seq<char>>|
            {
                &&& give_spec(f, t, ids).0 == give_line(f, map_catalog_spec(t.items@, f.item@), parts)
                &&& parts.contains(
                    "enchantment_glint_override"@ + seq!['='] + (if f.glint@ == "开启"@ {
                        "true"@
                    } else {
                        "false"@
                    }),
                )
            },
{
    let want = "enchantment_glint_override"@ + seq!['='] + (if f.glint@ == "开启"@ {
        "true"@
    } else {
        "false"@
    });
    assert(glint_part(f) == seq![want]);
    let tp = text_profile_of(f.version);
    if f.version == GiveVersion::Java1_21 || f.version == GiveVersion::Java1_21_1 {
        reveal(legacy_parts);
        let h0 = name_part("custom_name"@, f.display_name@, true, tp).0 + name_part("item_name"@, f.item_name@, true, tp).0
            + lore_part(f.lore@, true, tp).0 + rarity_part(f);
        let h1 = h0 + glint_part(f);
        lemma_contains_last(h0, want);
        let h2 = h1 + enchant_part(f, t.enchants@, true);
        lemma_contains_after(h1, enchant_part(f, t.enchants@, true), want);
        let h3 = h2 + attribute_part(f, ids, t.attributes@, true);
        lemma_contains_after(h2, attribute_part(f, ids, t.attributes@, true), want);
        let h4 = h3 + limits_part(f, t.blocks@, true);
        lemma_contains_after(h3, limits_part(f, t.blocks@, true), want);
        let h5 = h4 + flags_part(f);
        lemma_contains_after(h4, flags_part(f), want);
        let h6 = h5 + counts_part(f);
        lemma_contains_after(h5, counts_part(f), want);
        let h7 = h6 + legacy_food_part(f);
        lemma_contains_after(h6, legacy_food_part(f), want);
        let h8 = h7 + tool_part(f, t.blocks@);
        lemma_contains_after(h7, tool_part(f, t.blocks@), want);
        assert(legacy_parts(f, t, ids).0 == h8);
        assert(give_spec(f, t, ids).0 == give_line(f, map_catalog_spec(t.items@, f.item@), h8));
    } else {
        reveal(modern_parts);
        let p = profile_of(f.version);
        let snbt = p.text_as_snbt_string;
        let h0 = name_part("custom_name"@, f.display_name@, snbt, tp).0 + name_part("item_name"@, f.item_name@, snbt, tp).0
            + lore_part(f.lore@, snbt, tp).0 + rarity_part(f);
        let h1 = h0 + glint_part(f);
        lemma_contains_last(h0, want);
        let h2 = h1 + enchant_part(f, t.enchants@, false);
        lemma_contains_after(h1, enchant_part(f, t.enchants@, false), want);
        let at = if p.supports_attribute_modifiers {
            attribute_part(f, ids, t.attributes@, false)
        } else {
            seq![]
        };
        let h3 = h2 + at;
        lemma_contains_after(h2, at, want);
        assert(modern_head(f, p, t, ids).0 == h3);
        let h4 = h3 + modern_middle(f, p, t);
        lemma_contains_after(h3, modern_middle(f, p, t), want);
        let h5 = h4 + modern_end(f, p, t);
        lemma_contains_after(h4, modern_end(f, p, t), want);
        assert(modern_parts(f, p, t, ids).0 == h5);
        assert(give_spec(f, t, ids).0 == give_line(f, map_catalog_spec(t.items@, f.item@), h5));
    }
}

} // verus!
