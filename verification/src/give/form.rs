//! The `/give` form: every field of the item editor, its defaults, and how a loose JSON
//! object (a saved template or an AI intent) becomes a form, field by field, falling back to
//! the default wherever a field is missing or of the wrong kind.

use vstd::prelude::*;
use crate::give::builder::{normalize_version, version_of_tag, BlockLimitRow, GiveVersion};
use crate::give::component::RichLine;
use crate::give::json::{
    bool_of, copy_items, get_bool_field, get_str, get_string, int_or, jget, lemma_views, nonneg_or, normalize_int,
    normalize_nonneg, truthy, truthy_spec, view_of, views, JsonValue, JsonView,
};
use crate::give::number::Decimal;
use crate::text::string_from;

verus! {

/// An enchantment row: id (or display name) and level.
pub struct EnchantRow {
    pub id: String,
    pub level: JsonValue,
}

/// An attribute modifier row.
pub struct AttributeRow {
    pub attribute_type: String,
    pub amount: JsonValue,
    pub slot: String,
    pub operation: String,
    pub id: String,
}

/// One effect of an effect group: a bare id, or an id with its settings.
pub enum EffectEntry {
    Id(String),
    Full {
        id: String,
        duration: JsonValue,
        amplifier: JsonValue,
        show_particles: Option<bool>,
        show_icon: Option<bool>,
    },
}

/// A consume or death effect group (`apply_effects`, `remove_effects`, `clear_all_effects`,
/// `teleport_randomly`).
pub struct EffectGroup {
    pub group_type: String,
    pub probability_percent: JsonValue,
    pub diameter: JsonValue,
    pub effects: Vec<EffectEntry>,
}

/// A mining rule of the tool component: blocks (a list or comma-separated text), speed and
/// whether the blocks drop.
pub struct ToolRuleRow {
    pub blocks: JsonValue,
    pub speed: JsonValue,
    pub correct_for_drops: String,
}

/// Every field of the `/give` editor.
pub struct GiveForm {
    pub version: GiveVersion,
    pub target: String,
    pub item: String,
    pub count: i64,
    pub with_slash: bool,
    pub template_name: String,
    pub bedrock_data_value: i64,
    pub bedrock_item_lock: String,
    pub bedrock_keep_on_death: bool,
    pub display_name: Vec<RichLine>,
    pub item_name: Vec<RichLine>,
    pub lore: Vec<RichLine>,
    pub rarity: String,
    pub glint: String,
    pub enchantments: Vec<EnchantRow>,
    pub attributes: Vec<AttributeRow>,
    pub block_limits: Vec<BlockLimitRow>,
    pub unbreakable: bool,
    pub glider: bool,
    pub death_protection: bool,
    pub death_effects: Vec<EffectGroup>,
    pub damage_enabled: bool,
    pub damage: i64,
    pub max_damage_enabled: bool,
    pub max_damage: i64,
    pub stack_enabled: bool,
    pub max_stack_size: i64,
    pub repair_enabled: bool,
    pub repair_cost: i64,
    pub hidden_components: String,
    pub food_enabled: bool,
    pub nutrition: i64,
    pub saturation: Decimal,
    pub always_eat: String,
    pub consumable_enabled: bool,
    pub consume_seconds: Decimal,
    pub consume_sound: String,
    pub consume_particles: String,
    pub consume_effects: Vec<EffectGroup>,
    pub tool_enabled: bool,
    pub default_mining_speed: Decimal,
    pub damage_per_block: i64,
    pub tool_rules: Vec<ToolRuleRow>,
    /// The raw SNBT compound of the `custom_data` component, braces included.
    pub custom_data: String,
}

/// The form of a new template: Java 1.21.11+, one stone for `@a`, nothing else set.
pub open spec fn is_default_form(f: GiveForm) -> bool {
    &&& f.version == GiveVersion::Java1_21_11Plus
    &&& f.target@ == "@a"@
    &&& f.item@ == "石头"@
    &&& f.count == 1
    &&& !f.with_slash
    &&& f.template_name@ == "未命名模板"@
    &&& f.bedrock_data_value == 0
    &&& f.bedrock_item_lock@ == "不设置"@
    &&& !f.bedrock_keep_on_death
    &&& f.display_name@.len() == 0
    &&& f.item_name@.len() == 0
    &&& f.lore@.len() == 0
    &&& f.rarity@ == "不设置"@
    &&& f.glint@ == "默认"@
    &&& f.enchantments@.len() == 0
    &&& f.attributes@.len() == 0
    &&& f.block_limits@.len() == 0
    &&& !f.unbreakable
    &&& !f.glider
    &&& !f.death_protection
    &&& f.death_effects@.len() == 0
    &&& !f.damage_enabled
    &&& f.damage == 0
    &&& !f.max_damage_enabled
    &&& f.max_damage == 1
    &&& !f.stack_enabled
    &&& f.max_stack_size == 1
    &&& !f.repair_enabled
    &&& f.repair_cost == 0
    &&& f.hidden_components@.len() == 0
    &&& !f.food_enabled
    &&& f.nutrition == 0
    &&& f.saturation == Decimal { mantissa: 0, exponent: 0 }
    &&& f.always_eat@ == "默认"@
    &&& !f.consumable_enabled
    &&& f.consume_seconds == Decimal { mantissa: 0, exponent: 0 }
    &&& f.consume_sound@.len() == 0
    &&& f.consume_particles@ == "默认"@
    &&& f.consume_effects@.len() == 0
    &&& !f.tool_enabled
    &&& f.default_mining_speed == Decimal { mantissa: 1, exponent: 0 }
    &&& f.damage_per_block == 0
    &&& f.tool_rules@.len() == 0
    &&& f.custom_data@.len() == 0
}

/// The form of a new template.
pub fn create_default_form() -> (f: GiveForm)
    ensures
        is_default_form(f),
{
    GiveForm {
        version: GiveVersion::Java1_21_11Plus,
        target: string_from("@a"),
        item: string_from("石头"),
        count: 1,
        with_slash: false,
        template_name: string_from("未命名模板"),
        bedrock_data_value: 0,
        bedrock_item_lock: string_from("不设置"),
        bedrock_keep_on_death: false,
        display_name: Vec::new(),
        item_name: Vec::new(),
        lore: Vec::new(),
        rarity: string_from("不设置"),
        glint: string_from("默认"),
        enchantments: Vec::new(),
        attributes: Vec::new(),
        block_limits: Vec::new(),
        unbreakable: false,
        glider: false,
        death_protection: false,
        death_effects: Vec::new(),
        damage_enabled: false,
        damage: 0,
        max_damage_enabled: false,
        max_damage: 1,
        stack_enabled: false,
        max_stack_size: 1,
        repair_enabled: false,
        repair_cost: 0,
        hidden_components: String::new(),
        food_enabled: false,
        nutrition: 0,
        saturation: Decimal { mantissa: 0, exponent: 0 },
        always_eat: string_from("默认"),
        consumable_enabled: false,
        consume_seconds: Decimal { mantissa: 0, exponent: 0 },
        consume_sound: String::new(),
        consume_particles: string_from("默认"),
        consume_effects: Vec::new(),
        tool_enabled: false,
        default_mining_speed: Decimal { mantissa: 1, exponent: 0 },
        damage_per_block: 0,
        tool_rules: Vec::new(),
        custom_data: String::new(),
    }
}

/// The member `k` when present, else `null`.
pub open spec fn member_or_null(v: JsonView, k: Seq<char>) -> JsonView {
    match jget(v, k) {
        Some(x) => x,
        None => JsonView::Null,
    }
}

/// The items of the array member `k` (none when missing or not an array).
pub open spec fn array_member(v: JsonView, k: Seq<char>) -> Seq<JsonView> {
    match jget(v, k) {
        Some(JsonView::Array(xs)) => xs,
        _ => seq![],
    }
}

/// The string member `k`, or `fb`.
pub open spec fn str_or_spec(v: JsonView, k: Seq<char>, fb: Seq<char>) -> Seq<char> {
    match get_str(v, k) {
        Some(s) => s,
        None => fb,
    }
}

/// The truthiness of member `k`, or `fb` when missing.
pub open spec fn bool_or_spec(v: JsonView, k: Seq<char>, fb: bool) -> bool {
    match jget(v, k) {
        Some(x) => truthy_spec(x),
        None => fb,
    }
}

/// The whole number of member `k` (at least `min`), or `fb`.
pub open spec fn int_field_spec(v: JsonView, k: Seq<char>, fb: i64, min: i64) -> i64 {
    match jget(v, k) {
        Some(x) => int_or(x, fb, min),
        None => fb,
    }
}

/// The non-negative number of member `k`, or `fb`.
pub open spec fn nonneg_field_spec(v: JsonView, k: Seq<char>, fb: Decimal) -> Decimal {
    match jget(v, k) {
        Some(x) => nonneg_or(x, fb),
        None => fb,
    }
}

/// A rich line held by a value: its components when it is an array, none otherwise.
pub open spec fn line_of(v: JsonView) -> Seq<JsonView> {
    match v {
        JsonView::Array(xs) => xs,
        _ => seq![],
    }
}

/// The rich lines `lines` hold those of the items.
pub open spec fn lines_match(lines: Seq<RichLine>, items: Seq<JsonView>) -> bool {
    &&& lines.len() == items.len()
    &&& forall|i: int| 0 <= i < items.len() ==> views(#[trigger] lines[i]@) == line_of(items[i])
}

/// An enchantment row read from an item.
pub open spec fn enchant_matches(r: EnchantRow, v: JsonView) -> bool {
    r.id@ == str_or_spec(v, "id"@, seq![]) && r.level@ == member_or_null(v, "level"@)
}

/// An attribute row read from an item.
pub open spec fn attribute_matches(r: AttributeRow, v: JsonView) -> bool {
    &&& r.attribute_type@ == str_or_spec(v, "type"@, seq![])
    &&& r.amount@ == member_or_null(v, "amount"@)
    &&& r.slot@ == str_or_spec(v, "slot"@, seq![])
    &&& r.operation@ == str_or_spec(v, "operation"@, seq![])
    &&& r.id@ == str_or_spec(v, "id"@, seq![])
}

/// A block limit row read from an item.
pub open spec fn block_limit_matches(r: BlockLimitRow, v: JsonView) -> bool {
    r.block@ == str_or_spec(v, "block"@, seq![]) && r.limit_type@ == str_or_spec(v, "type"@, seq![])
}

/// An effect read from an item: a string is a bare id, an object an id with settings.
pub open spec fn effect_matches(e: EffectEntry, v: JsonView) -> bool {
    match v {
        JsonView::String(s) => e matches EffectEntry::Id(id) && id@ == s,
        JsonView::Object(_) => match e {
            EffectEntry::Full { id, duration, amplifier, show_particles, show_icon } => {
                &&& id@ == str_or_spec(v, "id"@, seq![])
                &&& duration@ == member_or_null(v, "duration"@)
                &&& amplifier@ == member_or_null(v, "amplifier"@)
                &&& show_particles == get_bool_spec(v, "show_particles"@)
                &&& show_icon == get_bool_spec(v, "show_icon"@)
            },
            _ => false,
        },
        _ => false,
    }
}

/// `get(k).and_then(as_bool)`.
pub open spec fn get_bool_spec(v: JsonView, k: Seq<char>) -> Option<bool> {
    match jget(v, k) {
        Some(x) => bool_of(x),
        None => None,
    }
}

/// The values that are effects (strings or objects), in order.
pub open spec fn effect_items(vs: Seq<JsonView>) -> Seq<JsonView>
    decreases vs.len(),
{
    if vs.len() == 0 {
        seq![]
    } else {
        let r = effect_items(vs.drop_last());
        match vs.last() {
            JsonView::String(_) => r.push(vs.last()),
            JsonView::Object(_) => r.push(vs.last()),
            _ => r,
        }
    }
}

/// An effect group read from an item.
pub open spec fn group_matches(g: EffectGroup, v: JsonView) -> bool {
    let es = effect_items(array_member(v, "effects"@));
    &&& g.group_type@ == str_or_spec(v, "type"@, seq![])
    &&& g.probability_percent@ == member_or_null(v, "probability_percent"@)
    &&& g.diameter@ == member_or_null(v, "diameter"@)
    &&& g.effects@.len() == es.len()
    &&& forall|i: int| 0 <= i < es.len() ==> effect_matches(#[trigger] g.effects@[i], es[i])
}

/// A tool rule read from an item.
pub open spec fn tool_rule_matches(r: ToolRuleRow, v: JsonView) -> bool {
    &&& r.blocks@ == member_or_null(v, "blocks"@)
    &&& r.speed@ == member_or_null(v, "speed"@)
    &&& r.correct_for_drops@ == str_or_spec(v, "correct_for_drops"@, seq![])
}

/// `f` is the form read from the object `v`, every field falling back to the default.
pub open spec fn form_read(f: GiveForm, v: JsonView) -> bool {
    &&& f.version == match get_str(v, "version"@) {
        Some(t) => version_of_tag(t),
        None => GiveVersion::Java1_21_11Plus,
    }
    &&& f.target@ == str_or_spec(v, "target"@, "@a"@)
    &&& f.item@ == str_or_spec(v, "item"@, "石头"@)
    &&& f.count == int_field_spec(v, "count"@, 1, 1)
    &&& f.with_slash == bool_or_spec(v, "withSlash"@, false)
    &&& f.template_name@ == str_or_spec(v, "templateName"@, "未命名模板"@)
    &&& f.bedrock_data_value == int_field_spec(v, "bedrockDataValue"@, 0, 0)
    &&& f.bedrock_item_lock@ == str_or_spec(v, "bedrockItemLock"@, "不设置"@)
    &&& f.bedrock_keep_on_death == bool_or_spec(v, "bedrockKeepOnDeath"@, false)
    &&& lines_match(f.display_name@, array_member(v, "displayName"@))
    &&& lines_match(f.item_name@, array_member(v, "itemName"@))
    &&& lines_match(f.lore@, array_member(v, "lore"@))
    &&& f.rarity@ == str_or_spec(v, "rarity"@, "不设置"@)
    &&& f.glint@ == str_or_spec(v, "glint"@, "默认"@)
    &&& f.enchantments@.len() == array_member(v, "enchantments"@).len()
    &&& (forall|i: int|
        0 <= i < f.enchantments@.len() ==> enchant_matches(#[trigger] f.enchantments@[i], array_member(v, "enchantments"@)[i]))
    &&& f.attributes@.len() == array_member(v, "attributes"@).len()
    &&& (forall|i: int|
        0 <= i < f.attributes@.len() ==> attribute_matches(#[trigger] f.attributes@[i], array_member(v, "attributes"@)[i]))
    &&& f.block_limits@.len() == array_member(v, "blockLimits"@).len()
    &&& (forall|i: int|
        0 <= i < f.block_limits@.len() ==> block_limit_matches(
            #[trigger] f.block_limits@[i],
            array_member(v, "blockLimits"@)[i],
        ))
    &&& f.unbreakable == bool_or_spec(v, "unbreakable"@, false)
    &&& f.glider == bool_or_spec(v, "glider"@, false)
    &&& f.death_protection == bool_or_spec(v, "deathProtection"@, false)
    &&& f.death_effects@.len() == array_member(v, "deathEffects"@).len()
    &&& (forall|i: int|
        0 <= i < f.death_effects@.len() ==> group_matches(#[trigger] f.death_effects@[i], array_member(v, "deathEffects"@)[i]))
    &&& f.damage_enabled == bool_or_spec(v, "damageEnabled"@, false)
    &&& f.damage == int_field_spec(v, "damage"@, 0, 0)
    &&& f.max_damage_enabled == bool_or_spec(v, "maxDamageEnabled"@, false)
    &&& f.max_damage == int_field_spec(v, "maxDamage"@, 1, 1)
    &&& f.stack_enabled == bool_or_spec(v, "stackEnabled"@, false)
    &&& f.max_stack_size == int_field_spec(v, "maxStackSize"@, 1, 1)
    &&& f.repair_enabled == bool_or_spec(v, "repairEnabled"@, false)
    &&& f.repair_cost == int_field_spec(v, "repairCost"@, 0, 0)
    &&& f.hidden_components@ == str_or_spec(v, "hiddenComponents"@, seq![])
    &&& f.food_enabled == bool_or_spec(v, "foodEnabled"@, false)
    &&& f.nutrition == int_field_spec(v, "nutrition"@, 0, 0)
    &&& f.saturation == nonneg_field_spec(v, "saturation"@, Decimal { mantissa: 0, exponent: 0 })
    &&& f.always_eat@ == str_or_spec(v, "alwaysEat"@, "默认"@)
    &&& f.consumable_enabled == bool_or_spec(v, "consumableEnabled"@, false)
    &&& f.consume_seconds == nonneg_field_spec(v, "consumeSeconds"@, Decimal { mantissa: 0, exponent: 0 })
    &&& f.consume_sound@ == str_or_spec(v, "consumeSound"@, seq![])
    &&& f.consume_particles@ == str_or_spec(v, "consumeParticles"@, "默认"@)
    &&& f.consume_effects@.len() == array_member(v, "consumeEffects"@).len()
    &&& (forall|i: int|
        0 <= i < f.consume_effects@.len() ==> group_matches(
            #[trigger] f.consume_effects@[i],
            array_member(v, "consumeEffects"@)[i],
        ))
    &&& f.tool_enabled == bool_or_spec(v, "toolEnabled"@, false)
    &&& f.default_mining_speed == nonneg_field_spec(v, "defaultMiningSpeed"@, Decimal { mantissa: 1, exponent: 0 })
    &&& f.damage_per_block == int_field_spec(v, "damagePerBlock"@, 0, 0)
    &&& f.tool_rules@.len() == array_member(v, "toolRules"@).len()
    &&& (forall|i: int|
        0 <= i < f.tool_rules@.len() ==> tool_rule_matches(#[trigger] f.tool_rules@[i], array_member(v, "toolRules"@)[i]))
    &&& f.custom_data@ == str_or_spec(v, "customData"@, seq![])
}

/// The string member `k`, or `fb`.
fn str_or(v: &JsonValue, k: &str, fb: &str) -> (r: String)
    ensures
        r@ == str_or_spec(v@, k@, fb@),
{
    match get_string(v, k) {
        Some(s) => s,
        None => string_from(fb),
    }
}

/// The truthiness of member `k`, or `fb`.
fn bool_or(v: &JsonValue, k: &str, fb: bool) -> (r: bool)
    ensures
        r == bool_or_spec(v@, k@, fb),
{
    match v.get(k) {
        Some(x) => truthy(x),
        None => fb,
    }
}

/// The whole number of member `k`, or `fb`.
fn int_field(v: &JsonValue, k: &str, fb: i64, min: i64) -> (r: i64)
    ensures
        r == int_field_spec(v@, k@, fb, min),
{
    match v.get(k) {
        Some(x) => normalize_int(x, fb, min),
        None => fb,
    }
}

/// The non-negative number of member `k`, or `fb`.
fn nonneg_field(v: &JsonValue, k: &str, fb: Decimal) -> (r: Decimal)
    ensures
        r == nonneg_field_spec(v@, k@, fb),
{
    match v.get(k) {
        Some(x) => normalize_nonneg(x, fb),
        None => fb,
    }
}

/// A copy of member `k`, or `null`.
fn copy_or_null(v: &JsonValue, k: &str) -> (r: JsonValue)
    ensures
        r@ == member_or_null(v@, k@),
{
    match v.get(k) {
        Some(x) => x.copy(),
        None => JsonValue::Null,
    }
}

/// The items of the array member `k`.
fn array_of<'a>(v: &'a JsonValue, k: &str) -> (r: Option<&'a Vec<JsonValue>>)
    ensures
        match r {
            Some(a) => views(a@) == array_member(v@, k@),
            None => array_member(v@, k@) == Seq::<JsonView>::empty(),
        },
{
    match v.get(k) {
        Some(x) => x.as_array(),
        None => None,
    }
}

/// A copy of the rich line a value holds.
fn line_copy(x: &JsonValue) -> (r: RichLine)
    ensures
        views(r@) == line_of(x@),
{
    match x.as_array() {
        Some(items) => copy_items(items),
        None => {
            let r: Vec<JsonValue> = Vec::new();
            assert(views(r@) =~= Seq::<JsonView>::empty());
            r
        },
    }
}

/// The rich lines of the array member `k`.
fn rich_lines(v: &JsonValue, k: &str) -> (r: Vec<RichLine>)
    ensures
        lines_match(r@, array_member(v@, k@)),
{
    let mut out: Vec<RichLine> = Vec::new();
    match array_of(v, k) {
        Some(items) => {
            proof {
                lemma_views(items@);
            }
            let mut i: usize = 0;
            while i < items.len()
                invariant
                    i <= items@.len(),
                    views(items@) == array_member(v@, k@),
                    views(items@).len() == items@.len(),
                    forall|j: int| 0 <= j < items@.len() ==> #[trigger] views(items@)[j] == view_of(items@[j]),
                    out@.len() == i,
                    forall|j: int| 0 <= j < i ==> views(#[trigger] out@[j]@) == line_of(view_of(items@[j])),
                decreases items@.len() - i,
            {
                let l = line_copy(&items[i]);
                out.push(l);
                i = i + 1;
            }
        },
        None => {},
    }
    out
}

/// The enchantment rows of the form object.
fn read_enchants(v: &JsonValue) -> (r: Vec<EnchantRow>)
    ensures
        r@.len() == array_member(v@, "enchantments"@).len(),
        forall|i: int| 0 <= i < r@.len() ==> enchant_matches(#[trigger] r@[i], array_member(v@, "enchantments"@)[i]),
{
    let mut out: Vec<EnchantRow> = Vec::new();
    match array_of(v, "enchantments") {
        Some(items) => {
            proof {
                lemma_views(items@);
            }
            let mut i: usize = 0;
            while i < items.len()
                invariant
                    i <= items@.len(),
                    views(items@) == array_member(v@, "enchantments"@),
                    views(items@).len() == items@.len(),
                    forall|j: int| 0 <= j < items@.len() ==> #[trigger] views(items@)[j] == view_of(items@[j]),
                    out@.len() == i,
                    forall|j: int| 0 <= j < i ==> enchant_matches(#[trigger] out@[j], view_of(items@[j])),
                decreases items@.len() - i,
            {
                let x = &items[i];
                out.push(EnchantRow { id: str_or(x, "id", ""), level: copy_or_null(x, "level") });
                proof {
                    reveal_strlit("");
                    assert(""@ =~= Seq::<char>::empty());
                }
                i = i + 1;
            }
        },
        None => {},
    }
    out
}

/// The attribute rows of the form object.
fn read_attributes(v: &JsonValue) -> (r: Vec<AttributeRow>)
    ensures
        r@.len() == array_member(v@, "attributes"@).len(),
        forall|i: int| 0 <= i < r@.len() ==> attribute_matches(#[trigger] r@[i], array_member(v@, "attributes"@)[i]),
{
    let mut out: Vec<AttributeRow> = Vec::new();
    proof {
        reveal_strlit("");
        assert(""@ =~= Seq::<char>::empty());
    }
    match array_of(v, "attributes") {
        Some(items) => {
            proof {
                lemma_views(items@);
            }
            let mut i: usize = 0;
            while i < items.len()
                invariant
                    i <= items@.len(),
                    ""@ =~= Seq::<char>::empty(),
                    views(items@) == array_member(v@, "attributes"@),
                    views(items@).len() == items@.len(),
                    forall|j: int| 0 <= j < items@.len() ==> #[trigger] views(items@)[j] == view_of(items@[j]),
                    out@.len() == i,
                    forall|j: int| 0 <= j < i ==> attribute_matches(#[trigger] out@[j], view_of(items@[j])),
                decreases items@.len() - i,
            {
                let x = &items[i];
                out.push(
                    AttributeRow {
                        attribute_type: str_or(x, "type", ""),
                        amount: copy_or_null(x, "amount"),
                        slot: str_or(x, "slot", ""),
                        operation: str_or(x, "operation", ""),
                        id: str_or(x, "id", ""),
                    },
                );
                i = i + 1;
            }
        },
        None => {},
    }
    out
}

/// The block limit rows of the form object.
fn read_block_limits(v: &JsonValue) -> (r: Vec<BlockLimitRow>)
    ensures
        r@.len() == array_member(v@, "blockLimits"@).len(),
        forall|i: int| 0 <= i < r@.len() ==> block_limit_matches(#[trigger] r@[i], array_member(v@, "blockLimits"@)[i]),
{
    let mut out: Vec<BlockLimitRow> = Vec::new();
    proof {
        reveal_strlit("");
        assert(""@ =~= Seq::<char>::empty());
    }
    match array_of(v, "blockLimits") {
        Some(items) => {
            proof {
                lemma_views(items@);
            }
            let mut i: usize = 0;
            while i < items.len()
                invariant
                    i <= items@.len(),
                    ""@ =~= Seq::<char>::empty(),
                    views(items@) == array_member(v@, "blockLimits"@),
                    views(items@).len() == items@.len(),
                    forall|j: int| 0 <= j < items@.len() ==> #[trigger] views(items@)[j] == view_of(items@[j]),
                    out@.len() == i,
                    forall|j: int| 0 <= j < i ==> block_limit_matches(#[trigger] out@[j], view_of(items@[j])),
                decreases items@.len() - i,
            {
                let x = &items[i];
                out.push(BlockLimitRow { block: str_or(x, "block", ""), limit_type: str_or(x, "type", "") });
                i = i + 1;
            }
        },
        None => {},
    }
    out
}

/// The effects of an effect group object.
fn read_effects(g: &JsonValue) -> (r: Vec<EffectEntry>)
    ensures
        r@.len() == effect_items(array_member(g@, "effects"@)).len(),
        forall|i: int|
            0 <= i < r@.len() ==> effect_matches(#[trigger] r@[i], effect_items(array_member(g@, "effects"@))[i]),
{
    let mut out: Vec<EffectEntry> = Vec::new();
    proof {
        reveal_strlit("");
        assert(""@ =~= Seq::<char>::empty());
    }
    match array_of(g, "effects") {
        Some(items) => {
            proof {
                lemma_views(items@);
            }
            let ghost vs = views(items@);
            let mut i: usize = 0;
            assert(vs.subrange(0, 0) =~= Seq::<JsonView>::empty());
            while i < items.len()
                invariant
                    i <= items@.len(),
                    ""@ =~= Seq::<char>::empty(),
                    vs == views(items@),
                    vs == array_member(g@, "effects"@),
                    vs.len() == items@.len(),
                    forall|j: int| 0 <= j < items@.len() ==> #[trigger] vs[j] == view_of(items@[j]),
                    out@.len() == effect_items(vs.subrange(0, i as int)).len(),
                    forall|j: int|
                        0 <= j < out@.len() ==> effect_matches(#[trigger] out@[j], effect_items(vs.subrange(0, i as int))[j]),
                decreases items@.len() - i,
            {
                let x = &items[i];
                let ghost prev = effect_items(vs.subrange(0, i as int));
                proof {
                    let sub = vs.subrange(0, i + 1);
                    assert(sub.drop_last() =~= vs.subrange(0, i as int));
                    assert(sub.last() == view_of(items@[i as int]));
                }
                match x {
                    JsonValue::String(s) => {
                        out.push(EffectEntry::Id(string_from(s.as_str())));
                    },
                    JsonValue::Object(_) => {
                        out.push(
                            EffectEntry::Full {
                                id: str_or(x, "id", ""),
                                duration: copy_or_null(x, "duration"),
                                amplifier: copy_or_null(x, "amplifier"),
                                show_particles: get_bool_field(x, "show_particles"),
                                show_icon: get_bool_field(x, "show_icon"),
                            },
                        );
                    },
                    _ => {},
                }
                i = i + 1;
            }
            assert(vs.subrange(0, items@.len() as int) =~= vs);
        },
        None => {
            assert(effect_items(Seq::<JsonView>::empty()) =~= Seq::<JsonView>::empty());
        },
    }
    out
}

/// The effect groups of the array member `k`.
fn read_groups(v: &JsonValue, k: &str) -> (r: Vec<EffectGroup>)
    ensures
        r@.len() == array_member(v@, k@).len(),
        forall|i: int| 0 <= i < r@.len() ==> group_matches(#[trigger] r@[i], array_member(v@, k@)[i]),
{
    let mut out: Vec<EffectGroup> = Vec::new();
    proof {
        reveal_strlit("");
        assert(""@ =~= Seq::<char>::empty());
    }
    match array_of(v, k) {
        Some(items) => {
            proof {
                lemma_views(items@);
            }
            let mut i: usize = 0;
            while i < items.len()
                invariant
                    i <= items@.len(),
                    ""@ =~= Seq::<char>::empty(),
                    views(items@) == array_member(v@, k@),
                    views(items@).len() == items@.len(),
                    forall|j: int| 0 <= j < items@.len() ==> #[trigger] views(items@)[j] == view_of(items@[j]),
                    out@.len() == i,
                    forall|j: int| 0 <= j < i ==> group_matches(#[trigger] out@[j], view_of(items@[j])),
                decreases items@.len() - i,
            {
                let x = &items[i];
                out.push(
                    EffectGroup {
                        group_type: str_or(x, "type", ""),
                        probability_percent: copy_or_null(x, "probability_percent"),
                        diameter: copy_or_null(x, "diameter"),
                        effects: read_effects(x),
                    },
                );
                i = i + 1;
            }
        },
        None => {},
    }
    out
}

/// The tool rules of the form object.
fn read_tool_rules(v: &JsonValue) -> (r: Vec<ToolRuleRow>)
    ensures
        r@.len() == array_member(v@, "toolRules"@).len(),
        forall|i: int| 0 <= i < r@.len() ==> tool_rule_matches(#[trigger] r@[i], array_member(v@, "toolRules"@)[i]),
{
    let mut out: Vec<ToolRuleRow> = Vec::new();
    proof {
        reveal_strlit("");
        assert(""@ =~= Seq::<char>::empty());
    }
    match array_of(v, "toolRules") {
        Some(items) => {
            proof {
                lemma_views(items@);
            }
            let mut i: usize = 0;
            while i < items.len()
                invariant
                    i <= items@.len(),
                    ""@ =~= Seq::<char>::empty(),
                    views(items@) == array_member(v@, "toolRules"@),
                    views(items@).len() == items@.len(),
                    forall|j: int| 0 <= j < items@.len() ==> #[trigger] views(items@)[j] == view_of(items@[j]),
                    out@.len() == i,
                    forall|j: int| 0 <= j < i ==> tool_rule_matches(#[trigger] out@[j], view_of(items@[j])),
                decreases items@.len() - i,
            {
                let x = &items[i];
                out.push(
                    ToolRuleRow {
                        blocks: copy_or_null(x, "blocks"),
                        speed: copy_or_null(x, "speed"),
                        correct_for_drops: str_or(x, "correct_for_drops", ""),
                    },
                );
                i = i + 1;
            }
        },
        None => {},
    }
    out
}

/// The form held by a loose JSON value: the default form unless it is an object, each field
/// of which is read on its own, falling back to the default when missing or unusable.
pub fn normalize_form(value: &JsonValue) -> (f: GiveForm)
    ensures
        value@ is Object ==> form_read(f, value@),
        !(value@ is Object) ==> is_default_form(f),
{
    if !value.is_object() {
        return create_default_form();
    }
    let v = value;
    let version = match get_string(v, "version") {
        Some(t) => normalize_version(t.as_str()),
        None => GiveVersion::Java1_21_11Plus,
    };
    proof {
        reveal_strlit("");
        assert(""@ =~= Seq::<char>::empty());
    }
    GiveForm {
        version,
        target: str_or(v, "target", "@a"),
        item: str_or(v, "item", "石头"),
        count: int_field(v, "count", 1, 1),
        with_slash: bool_or(v, "withSlash", false),
        template_name: str_or(v, "templateName", "未命名模板"),
        bedrock_data_value: int_field(v, "bedrockDataValue", 0, 0),
        bedrock_item_lock: str_or(v, "bedrockItemLock", "不设置"),
        bedrock_keep_on_death: bool_or(v, "bedrockKeepOnDeath", false),
        display_name: rich_lines(v, "displayName"),
        item_name: rich_lines(v, "itemName"),
        lore: rich_lines(v, "lore"),
        rarity: str_or(v, "rarity", "不设置"),
        glint: str_or(v, "glint", "默认"),
        enchantments: read_enchants(v),
        attributes: read_attributes(v),
        block_limits: read_block_limits(v),
        unbreakable: bool_or(v, "unbreakable", false),
        glider: bool_or(v, "glider", false),
        death_protection: bool_or(v, "deathProtection", false),
        death_effects: read_groups(v, "deathEffects"),
        damage_enabled: bool_or(v, "damageEnabled", false),
        damage: int_field(v, "damage", 0, 0),
        max_damage_enabled: bool_or(v, "maxDamageEnabled", false),
        max_damage: int_field(v, "maxDamage", 1, 1),
        stack_enabled: bool_or(v, "stackEnabled", false),
        max_stack_size: int_field(v, "maxStackSize", 1, 1),
        repair_enabled: bool_or(v, "repairEnabled", false),
        repair_cost: int_field(v, "repairCost", 0, 0),
        hidden_components: str_or(v, "hiddenComponents", ""),
        food_enabled: bool_or(v, "foodEnabled", false),
        nutrition: int_field(v, "nutrition", 0, 0),
        saturation: nonneg_field(v, "saturation", Decimal { mantissa: 0, exponent: 0 }),
        always_eat: str_or(v, "alwaysEat", "默认"),
        consumable_enabled: bool_or(v, "consumableEnabled", false),
        consume_seconds: nonneg_field(v, "consumeSeconds", Decimal { mantissa: 0, exponent: 0 }),
        consume_sound: str_or(v, "consumeSound", ""),
        consume_particles: str_or(v, "consumeParticles", "默认"),
        consume_effects: read_groups(v, "consumeEffects"),
        tool_enabled: bool_or(v, "toolEnabled", false),
        default_mining_speed: nonneg_field(v, "defaultMiningSpeed", Decimal { mantissa: 1, exponent: 0 }),
        damage_per_block: int_field(v, "damagePerBlock", 0, 0),
        tool_rules: read_tool_rules(v),
        custom_data: str_or(v, "customData", ""),
    }
}

} // verus!
