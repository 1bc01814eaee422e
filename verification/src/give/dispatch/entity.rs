//! The NBT-carrying forms read from an intent: items and their enchantments, block entities
//! for `/setblock`, and everything `/summon` puts on an entity.

use vstd::prelude::*;
use crate::give::builder::GiveVersion;
use crate::give::commands::nbt::{NbtAttribute, NbtEffect, NbtEnchantment, NbtEquipment, NbtItem};
use crate::give::commands::summon::{SummonForm, SummonPassenger};
use crate::give::component::RichLine;
use crate::give::commands::setblock::{ContainerSlot, SetblockCommandBlockOptions, SetblockForm, SetblockMode, SetblockNbt};
use crate::give::component::push_text;
use crate::give::dispatch::fields::{
    array_at, flag, flag_of, flag_opt, flag_opt_of, int_at, items_at, number_at, opt_int, opt_number,
    same_text, text_of, text_or_empty,
};
use crate::give::json::{
    copy_items, get_str, get_string, jget, lemma_views, str_of, str_or_empty, string_or_empty, texts, views, JsonValue,
    JsonView,
};
use crate::give::number::Decimal;
use crate::text::str_eq;

verus! {

/// An enchantment row: its string id and its level (1 when missing); none without a string id.
pub open spec fn enchant_row(v: JsonView) -> Option<(Seq<char>, i64)> {
    match get_str(v, "id"@) {
        Some(id) => Some(
            (
                id,
                match int_at(v, "level"@) {
                    Some(l) => l,
                    None => 1,
                },
            ),
        ),
        None => None,
    }
}

/// The enchantment rows of a list, skipping those without an id.
pub open spec fn enchant_rows(items: Seq<JsonView>) -> Seq<(Seq<char>, i64)>
    decreases items.len(),
{
    if items.len() == 0 {
        seq![]
    } else {
        let r = enchant_rows(items.drop_last());
        match enchant_row(items.last()) {
            Some(e) => r.push(e),
            None => r,
        }
    }
}

/// The enchantments of an item: the rows of the array member, none when it is missing, not
/// an array, or has no row.
pub open spec fn enchantments_at(v: JsonView, k: Seq<char>) -> Option<Seq<(Seq<char>, i64)>> {
    match jget(v, k) {
        Some(JsonView::Array(a)) => if enchant_rows(a).len() > 0 {
            Some(enchant_rows(a))
        } else {
            None
        },
        _ => None,
    }
}

/// The enchantments hold exactly the rows.
pub open spec fn rows_match(es: Seq<NbtEnchantment>, rows: Seq<(Seq<char>, i64)>) -> bool {
    &&& es.len() == rows.len()
    &&& forall|i: int| 0 <= i < rows.len() ==> (#[trigger] es[i]).id@ == rows[i].0 && es[i].level == rows[i].1
}

/// Optional enchantments hold exactly the optional rows.
pub open spec fn enchants_match(es: Option<Vec<NbtEnchantment>>, rows: Option<Seq<(Seq<char>, i64)>>) -> bool {
    match (es, rows) {
        (Some(e), Some(r)) => rows_match(e@, r),
        (None, None) => true,
        _ => false,
    }
}

fn read_enchant_rows(a: &Vec<JsonValue>) -> (out: Vec<NbtEnchantment>)
    ensures
        rows_match(out@, enchant_rows(views(a@))),
{
    proof {
        lemma_views(a@);
    }
    let ghost s = views(a@);
    let mut out: Vec<NbtEnchantment> = Vec::new();
    let mut i: usize = 0;
    while i < a.len()
        invariant
            i <= a@.len(),
            s == views(a@),
            s.len() == a@.len(),
            forall|j: int| 0 <= j < a@.len() ==> #[trigger] s[j] == a@[j]@,
            rows_match(out@, enchant_rows(s.subrange(0, i as int))),
        decreases a@.len() - i,
    {
        let row = &a[i];
        proof {
            let next = s.subrange(0, i + 1);
            assert(next.drop_last() =~= s.subrange(0, i as int));
            assert(next.last() == row@);
        }
        match get_string(row, "id") {
            Some(id) => {
                let level = match opt_int(row, "level") {
                    Some(l) => l,
                    None => 1,
                };
                out.push(NbtEnchantment { id, level });
            },
            None => {},
        }
        i = i + 1;
    }
    assert(s.subrange(0, a@.len() as int) =~= s);
    out
}

fn parse_enchantments_field(v: &JsonValue, k: &str) -> (r: Option<Vec<NbtEnchantment>>)
    ensures
        enchants_match(r, enchantments_at(v@, k@)),
{
    match array_at(v, k) {
        Some(a) => {
            let rows = read_enchant_rows(a);
            if rows.len() == 0 {
                None
            } else {
                Some(rows)
            }
        },
        None => None,
    }
}

/// An item: `id` (empty when missing), `count`, `enchantments`; no other components.
pub open spec fn item_read(it: NbtItem, v: JsonView) -> bool {
    &&& it.id@ == str_or_empty(v, "id"@)
    &&& it.count == int_at(v, "count"@)
    &&& enchants_match(it.enchantments, enchantments_at(v, "enchantments"@))
    &&& it.components@.len() == 0
}

/// Reads an item (see `item_read`).
pub fn parse_nbt_item(v: &JsonValue) -> (it: NbtItem)
    ensures
        item_read(it, v@),
{
    NbtItem {
        id: string_or_empty(v, "id"),
        count: opt_int(v, "count"),
        enchantments: parse_enchantments_field(v, "enchantments"),
        components: Vec::new(),
    }
}

/// A member, or `null` when it is missing.
pub open spec fn member_or_null(v: JsonView, k: Seq<char>) -> JsonView {
    match jget(v, k) {
        Some(x) => x,
        None => JsonView::Null,
    }
}

/// A container slot: `slot` (0 when missing) and the `item`.
pub open spec fn slot_read(c: ContainerSlot, v: JsonView) -> bool {
    &&& c.slot == match int_at(v, "slot"@) {
        Some(n) => n,
        None => 0,
    }
    &&& item_read(c.item, member_or_null(v, "item"@))
}

fn read_slot(v: &JsonValue) -> (c: ContainerSlot)
    ensures
        slot_read(c, v@),
{
    let slot = match opt_int(v, "slot") {
        Some(n) => n,
        None => 0,
    };
    let item = match v.get("item") {
        Some(x) => parse_nbt_item(x),
        None => parse_nbt_item(&JsonValue::Null),
    };
    ContainerSlot { slot, item }
}

/// Every entry of the list read as a container slot.
pub open spec fn slots_read(cs: Seq<ContainerSlot>, items: Seq<JsonView>) -> bool {
    &&& cs.len() == items.len()
    &&& forall|i: int| 0 <= i < items.len() ==> slot_read(#[trigger] cs[i], items[i])
}

fn parse_container_items(a: &Vec<JsonValue>) -> (out: Vec<ContainerSlot>)
    ensures
        slots_read(out@, views(a@)),
{
    proof {
        lemma_views(a@);
    }
    let mut out: Vec<ContainerSlot> = Vec::new();
    let mut i: usize = 0;
    while i < a.len()
        invariant
            i <= a@.len(),
            views(a@).len() == a@.len(),
            forall|j: int| 0 <= j < a@.len() ==> #[trigger] views(a@)[j] == a@[j]@,
            out@.len() == i,
            forall|j: int| 0 <= j < i ==> slot_read(#[trigger] out@[j], views(a@)[j]),
        decreases a@.len() - i,
    {
        let c = read_slot(&a[i]);
        out.push(c);
        i = i + 1;
    }
    out
}

/// The `i`-th sign line: the text of the item, empty when missing or not a string.
pub open spec fn line_at(a: Seq<JsonView>, i: int) -> Seq<char> {
    if i < a.len() {
        text_or_empty(a[i])
    } else {
        seq![]
    }
}

fn read_line(a: &Vec<JsonValue>, i: usize) -> (s: String)
    ensures
        s@ == line_at(views(a@), i as int),
{
    proof {
        lemma_views(a@);
    }
    if i < a.len() {
        text_of(&a[i])
    } else {
        String::new()
    }
}

/// The block-entity data of a `/setblock` intent: a command block when `commandBlock` is
/// there (nothing when it is not an object), else the container items of a non-empty
/// `containerItems` array, else the four `signLines`, else nothing.
pub open spec fn setblock_nbt_read(n: SetblockNbt, v: JsonView) -> bool {
    match jget(v, "commandBlock"@) {
        Some(cb) => if cb is Object {
            n matches SetblockNbt::CommandBlock(o) && {
                &&& o.command@ == str_or_empty(cb, "command"@)
                &&& o.auto == flag_of(cb, "auto"@)
                &&& o.track_output == flag_opt_of(cb, "trackOutput"@)
            }
        } else {
            n is Empty
        },
        None => match jget(v, "containerItems"@) {
            Some(JsonView::Array(a)) => if a.len() == 0 {
                n is Empty
            } else {
                n matches SetblockNbt::ContainerItems(cs) && slots_read(cs@, a)
            },
            _ => match jget(v, "signLines"@) {
                Some(JsonView::Array(a)) => n matches SetblockNbt::SignLines(ls) && {
                    &&& ls@[0]@ == line_at(a, 0)
                    &&& ls@[1]@ == line_at(a, 1)
                    &&& ls@[2]@ == line_at(a, 2)
                    &&& ls@[3]@ == line_at(a, 3)
                },
                _ => n is Empty,
            },
        },
    }
}

fn read_setblock_nbt(v: &JsonValue) -> (n: SetblockNbt)
    ensures
        setblock_nbt_read(n, v@),
{
    match v.get("commandBlock") {
        Some(cb) => {
            if cb.is_object() {
                SetblockNbt::CommandBlock(
                    SetblockCommandBlockOptions {
                        command: string_or_empty(cb, "command"),
                        auto: flag(cb, "auto"),
                        track_output: flag_opt(cb, "trackOutput"),
                    },
                )
            } else {
                SetblockNbt::Empty
            }
        },
        None => match array_at(v, "containerItems") {
            Some(a) => {
                proof {
                    lemma_views(a@);
                }
                if a.len() == 0 {
                    SetblockNbt::Empty
                } else {
                    SetblockNbt::ContainerItems(parse_container_items(a))
                }
            },
            None => match array_at(v, "signLines") {
                Some(a) => SetblockNbt::SignLines(
                    [read_line(a, 0), read_line(a, 1), read_line(a, 2), read_line(a, 3)],
                ),
                None => SetblockNbt::Empty,
            },
        },
    }
}

/// A setblock mode by its name.
pub open spec fn setblock_mode_of(s: Option<Seq<char>>) -> Option<SetblockMode> {
    match s {
        Some(t) => if t == "replace"@ {
            Some(SetblockMode::Replace)
        } else if t == "destroy"@ {
            Some(SetblockMode::Destroy)
        } else if t == "keep"@ {
            Some(SetblockMode::Keep)
        } else {
            None
        },
        None => None,
    }
}

fn parse_setblock_mode(v: &JsonValue) -> (m: Option<SetblockMode>)
    ensures
        m == setblock_mode_of(get_str(v@, "mode"@)),
{
    match get_string(v, "mode") {
        Some(t) => {
            let t = t.as_str();
            if str_eq(t, "replace") {
                Some(SetblockMode::Replace)
            } else if str_eq(t, "destroy") {
                Some(SetblockMode::Destroy)
            } else if str_eq(t, "keep") {
                Some(SetblockMode::Keep)
            } else {
                None
            }
        },
        None => None,
    }
}

/// `/setblock`: `withSlash`, `x`, `y`, `z`, `block`, `blockstate`, `mode` and the block-entity
/// data (see `setblock_nbt_read`), for the given version.
pub open spec fn setblock_read(f: SetblockForm, v: JsonView, version: GiveVersion) -> bool {
    &&& f.version == version
    &&& f.with_slash == flag_of(v, "withSlash"@)
    &&& f.x@ == str_or_empty(v, "x"@)
    &&& f.y@ == str_or_empty(v, "y"@)
    &&& f.z@ == str_or_empty(v, "z"@)
    &&& f.block@ == str_or_empty(v, "block"@)
    &&& same_text(f.blockstate, get_str(v, "blockstate"@))
    &&& f.mode == setblock_mode_of(get_str(v, "mode"@))
    &&& setblock_nbt_read(f.nbt, v)
}

/// Reads a `/setblock` form (see `setblock_read`).
pub fn read_setblock(v: &JsonValue, version: GiveVersion) -> (f: SetblockForm)
    ensures
        setblock_read(f, v@, version),
{
    SetblockForm {
        version,
        with_slash: flag(v, "withSlash"),
        x: string_or_empty(v, "x"),
        y: string_or_empty(v, "y"),
        z: string_or_empty(v, "z"),
        block: string_or_empty(v, "block"),
        blockstate: get_string(v, "blockstate"),
        mode: parse_setblock_mode(v),
        nbt: read_setblock_nbt(v),
    }
}

/// The facing of `rotation`: its first two items, when both are numbers.
pub open spec fn rotation_at(v: JsonView) -> Option<(Decimal, Decimal)> {
    match jget(v, "rotation"@) {
        Some(JsonView::Array(a)) => if a.len() >= 2 {
            match (a[0], a[1]) {
                (JsonView::Number(y), JsonView::Number(p)) => Some((y, p)),
                _ => None,
            }
        } else {
            None
        },
        _ => None,
    }
}

fn read_rotation(v: &JsonValue) -> (r: Option<(Decimal, Decimal)>)
    ensures
        r == rotation_at(v@),
{
    match array_at(v, "rotation") {
        Some(a) => {
            proof {
                lemma_views(a@);
            }
            if a.len() >= 2 {
                match (&a[0], &a[1]) {
                    (JsonValue::Number(y), JsonValue::Number(p)) => Some((*y, *p)),
                    _ => None,
                }
            } else {
                None
            }
        },
        None => None,
    }
}

/// The string items of a list, in order, the others skipped.
pub open spec fn string_items(items: Seq<JsonView>) -> Seq<Seq<char>>
    decreases items.len(),
{
    if items.len() == 0 {
        seq![]
    } else {
        let r = string_items(items.drop_last());
        match str_of(items.last()) {
            Some(t) => r.push(t),
            None => r,
        }
    }
}

fn read_strings(v: &JsonValue, k: &str) -> (out: Vec<String>)
    ensures
        texts(out@) == string_items(items_at(v@, k@)),
{
    let mut out: Vec<String> = Vec::new();
    match array_at(v, k) {
        Some(a) => {
            proof {
                lemma_views(a@);
            }
            let ghost s = views(a@);
            let mut i: usize = 0;
            while i < a.len()
                invariant
                    i <= a@.len(),
                    s == views(a@),
                    s.len() == a@.len(),
                    forall|j: int| 0 <= j < a@.len() ==> #[trigger] s[j] == a@[j]@,
                    texts(out@) == string_items(s.subrange(0, i as int)),
                decreases a@.len() - i,
            {
                proof {
                    let next = s.subrange(0, i + 1);
                    assert(next.drop_last() =~= s.subrange(0, i as int));
                    assert(next.last() == a@[i as int]@);
                }
                match a[i].as_str() {
                    Some(t) => push_text(&mut out, crate::text::string_from(t)),
                    None => {},
                }
                i = i + 1;
            }
            assert(s.subrange(0, a@.len() as int) =~= s);
        },
        None => {
            assert(texts(out@) =~= Seq::<Seq<char>>::empty());
        },
    }
    out
}

/// An attribute row: its string id and its `base` (0 when not a number); none without an id.
pub open spec fn attribute_row(v: JsonView) -> Option<(Seq<char>, Decimal)> {
    match get_str(v, "id"@) {
        Some(id) => Some(
            (
                id,
                match number_at(v, "base"@) {
                    Some(b) => b,
                    None => Decimal { mantissa: 0, exponent: 0 },
                },
            ),
        ),
        None => None,
    }
}

/// The attribute rows of a list, skipping those without an id.
pub open spec fn attribute_rows(items: Seq<JsonView>) -> Seq<(Seq<char>, Decimal)>
    decreases items.len(),
{
    if items.len() == 0 {
        seq![]
    } else {
        let r = attribute_rows(items.drop_last());
        match attribute_row(items.last()) {
            Some(e) => r.push(e),
            None => r,
        }
    }
}

/// The attributes hold exactly the rows.
pub open spec fn attributes_match(xs: Seq<NbtAttribute>, rows: Seq<(Seq<char>, Decimal)>) -> bool {
    &&& xs.len() == rows.len()
    &&& forall|i: int| 0 <= i < rows.len() ==> (#[trigger] xs[i]).id@ == rows[i].0 && xs[i].base == rows[i].1
}

fn read_attributes(v: &JsonValue) -> (out: Vec<NbtAttribute>)
    ensures
        attributes_match(out@, attribute_rows(items_at(v@, "attributes"@))),
{
    let mut out: Vec<NbtAttribute> = Vec::new();
    match array_at(v, "attributes") {
        Some(a) => {
            proof {
                lemma_views(a@);
            }
            let ghost s = views(a@);
            let mut i: usize = 0;
            while i < a.len()
                invariant
                    i <= a@.len(),
                    s == views(a@),
                    s.len() == a@.len(),
                    forall|j: int| 0 <= j < a@.len() ==> #[trigger] s[j] == a@[j]@,
                    attributes_match(out@, attribute_rows(s.subrange(0, i as int))),
                decreases a@.len() - i,
            {
                let row = &a[i];
                proof {
                    let next = s.subrange(0, i + 1);
                    assert(next.drop_last() =~= s.subrange(0, i as int));
                    assert(next.last() == row@);
                }
                match get_string(row, "id") {
                    Some(id) => {
                        let base = match opt_number(row, "base") {
                            Some(b) => b,
                            None => Decimal { mantissa: 0, exponent: 0 },
                        };
                        out.push(NbtAttribute { id, base });
                    },
                    None => {},
                }
                i = i + 1;
            }
            assert(s.subrange(0, a@.len() as int) =~= s);
        },
        None => {},
    }
    out
}

/// An effect row: its string id, `duration`, `amplifier` and `showParticles`; none without an
/// id.
pub open spec fn effect_row(v: JsonView) -> Option<(Seq<char>, Option<i64>, Option<i64>, Option<bool>)> {
    match get_str(v, "id"@) {
        Some(id) => Some((id, int_at(v, "duration"@), int_at(v, "amplifier"@), flag_opt_of(v, "showParticles"@))),
        None => None,
    }
}

/// The effect rows of a list, skipping those without an id.
pub open spec fn effect_rows(items: Seq<JsonView>) -> Seq<(Seq<char>, Option<i64>, Option<i64>, Option<bool>)>
    decreases items.len(),
{
    if items.len() == 0 {
        seq![]
    } else {
        let r = effect_rows(items.drop_last());
        match effect_row(items.last()) {
            Some(e) => r.push(e),
            None => r,
        }
    }
}

/// The effects hold exactly the rows.
pub open spec fn effects_match(xs: Seq<NbtEffect>, rows: Seq<(Seq<char>, Option<i64>, Option<i64>, Option<bool>)>) -> bool {
    &&& xs.len() == rows.len()
    &&& forall|i: int|
        0 <= i < rows.len() ==> (#[trigger] xs[i]).id@ == rows[i].0 && xs[i].duration == rows[i].1 && xs[i].amplifier
            == rows[i].2 && xs[i].show_particles == rows[i].3
}

/// Reads the effect rows of a list (see `effect_rows`).
pub fn read_effects(v: &JsonValue, k: &str) -> (out: Vec<NbtEffect>)
    ensures
        effects_match(out@, effect_rows(items_at(v@, k@))),
{
    let mut out: Vec<NbtEffect> = Vec::new();
    match array_at(v, k) {
        Some(a) => {
            proof {
                lemma_views(a@);
            }
            let ghost s = views(a@);
            let mut i: usize = 0;
            while i < a.len()
                invariant
                    i <= a@.len(),
                    s == views(a@),
                    s.len() == a@.len(),
                    forall|j: int| 0 <= j < a@.len() ==> #[trigger] s[j] == a@[j]@,
                    effects_match(out@, effect_rows(s.subrange(0, i as int))),
                decreases a@.len() - i,
            {
                let row = &a[i];
                proof {
                    let next = s.subrange(0, i + 1);
                    assert(next.drop_last() =~= s.subrange(0, i as int));
                    assert(next.last() == row@);
                }
                match get_string(row, "id") {
                    Some(id) => {
                        out.push(
                            NbtEffect {
                                id,
                                duration: opt_int(row, "duration"),
                                amplifier: opt_int(row, "amplifier"),
                                show_particles: flag_opt(row, "showParticles"),
                            },
                        );
                    },
                    None => {},
                }
                i = i + 1;
            }
            assert(s.subrange(0, a@.len() as int) =~= s);
        },
        None => {},
    }
    out
}

/// An equipment slot: the item read from the member when it is there.
pub open spec fn equip_slot_read(o: Option<NbtItem>, v: JsonView, k: Seq<char>) -> bool {
    match jget(v, k) {
        Some(x) => o matches Some(it) && item_read(it, x),
        None => o is None,
    }
}

fn read_equip_slot(v: &JsonValue, k: &str) -> (o: Option<NbtItem>)
    ensures
        equip_slot_read(o, v@, k@),
{
    match v.get(k) {
        Some(x) => Some(parse_nbt_item(x)),
        None => None,
    }
}

/// The `equipment` object: its six slots; none when it is missing or not an object.
pub open spec fn equipment_read(eq: Option<NbtEquipment>, v: JsonView) -> bool {
    match jget(v, "equipment"@) {
        Some(x) => if x is Object {
            eq matches Some(e) && {
                &&& equip_slot_read(e.mainhand, x, "mainhand"@)
                &&& equip_slot_read(e.offhand, x, "offhand"@)
                &&& equip_slot_read(e.head, x, "head"@)
                &&& equip_slot_read(e.chest, x, "chest"@)
                &&& equip_slot_read(e.legs, x, "legs"@)
                &&& equip_slot_read(e.feet, x, "feet"@)
            }
        } else {
            eq is None
        },
        None => eq is None,
    }
}

fn parse_equipment(v: &JsonValue) -> (eq: Option<NbtEquipment>)
    ensures
        equipment_read(eq, v@),
{
    match v.get("equipment") {
        Some(x) => if x.is_object() {
            Some(
                NbtEquipment {
                    mainhand: read_equip_slot(x, "mainhand"),
                    offhand: read_equip_slot(x, "offhand"),
                    head: read_equip_slot(x, "head"),
                    chest: read_equip_slot(x, "chest"),
                    legs: read_equip_slot(x, "legs"),
                    feet: read_equip_slot(x, "feet"),
                },
            )
        } else {
            None
        },
        None => None,
    }
}

/// A rich line from a member: its items when it is an array, empty when it is anything else;
/// none when it is missing.
pub open spec fn line_read(o: Option<RichLine>, x: Option<JsonView>) -> bool {
    match x {
        Some(y) => o matches Some(l) && views(l@) == match y {
            JsonView::Array(a) => a,
            _ => Seq::<JsonView>::empty(),
        },
        None => o is None,
    }
}

fn parse_rich_line(v: &JsonValue, k: &str) -> (o: Option<RichLine>)
    ensures
        line_read(o, jget(v@, k@)),
{
    match v.get(k) {
        Some(x) => match x.as_array() {
            Some(a) => Some(copy_items(a)),
            None => {
                let l: RichLine = Vec::new();
                assert(views(l@) =~= Seq::<JsonView>::empty());
                Some(l)
            },
        },
        None => None,
    }
}

/// A passenger: `entityType`, `noAI`, `silent`, `customName`, `extraNbt`.
pub open spec fn passenger_read(p: SummonPassenger, v: JsonView) -> bool {
    &&& p.entity_type@ == str_or_empty(v, "entityType"@)
    &&& p.no_ai == flag_of(v, "noAI"@)
    &&& p.silent == flag_of(v, "silent"@)
    &&& line_read(p.custom_name, jget(v, "customName"@))
    &&& same_text(p.extra_nbt, get_str(v, "extraNbt"@))
}

fn parse_passenger(v: &JsonValue) -> (p: SummonPassenger)
    ensures
        passenger_read(p, v@),
{
    SummonPassenger {
        entity_type: string_or_empty(v, "entityType"),
        no_ai: flag(v, "noAI"),
        silent: flag(v, "silent"),
        custom_name: parse_rich_line(v, "customName"),
        extra_nbt: get_string(v, "extraNbt"),
    }
}

/// Every item of the list read as a passenger.
pub open spec fn passengers_read(ps: Seq<SummonPassenger>, items: Seq<JsonView>) -> bool {
    &&& ps.len() == items.len()
    &&& forall|i: int| 0 <= i < items.len() ==> passenger_read(#[trigger] ps[i], items[i])
}

fn read_passengers(v: &JsonValue) -> (out: Vec<SummonPassenger>)
    ensures
        passengers_read(out@, items_at(v@, "passengers"@)),
{
    let mut out: Vec<SummonPassenger> = Vec::new();
    match array_at(v, "passengers") {
        Some(a) => {
            proof {
                lemma_views(a@);
            }
            let mut i: usize = 0;
            while i < a.len()
                invariant
                    i <= a@.len(),
                    items_at(v@, "passengers"@) == views(a@),
                    views(a@).len() == a@.len(),
                    forall|j: int| 0 <= j < a@.len() ==> #[trigger] views(a@)[j] == a@[j]@,
                    out@.len() == i,
                    forall|j: int| 0 <= j < i ==> passenger_read(#[trigger] out@[j], views(a@)[j]),
                decreases a@.len() - i,
            {
                let p = parse_passenger(&a[i]);
                out.push(p);
                i = i + 1;
            }
        },
        None => {},
    }
    out
}

/// `/summon`: `withSlash`, `entityType`, `x`, `y`, `z`, `customName`, the flags `noAI`,
/// `silent`, `persistenceRequired`, `invulnerable`, `noGravity`, `glowing`, `rotation`,
/// `health` (a number), the string `tags`, `attributes`, `effects`, `equipment`,
/// `passengers` and `extraNbt`, for the given version.
pub open spec fn summon_read(f: SummonForm, v: JsonView, version: GiveVersion) -> bool {
    &&& f.version == version
    &&& f.with_slash == flag_of(v, "withSlash"@)
    &&& f.entity_type@ == str_or_empty(v, "entityType"@)
    &&& same_text(f.x, get_str(v, "x"@))
    &&& same_text(f.y, get_str(v, "y"@))
    &&& same_text(f.z, get_str(v, "z"@))
    &&& line_read(f.custom_name, jget(v, "customName"@))
    &&& f.no_ai == flag_of(v, "noAI"@)
    &&& f.silent == flag_of(v, "silent"@)
    &&& f.persistence_required == flag_of(v, "persistenceRequired"@)
    &&& f.invulnerable == flag_of(v, "invulnerable"@)
    &&& f.no_gravity == flag_of(v, "noGravity"@)
    &&& f.glowing == flag_of(v, "glowing"@)
    &&& f.rotation == rotation_at(v)
    &&& f.health == number_at(v, "health"@)
    &&& texts(f.tags@) == string_items(items_at(v, "tags"@))
    &&& attributes_match(f.attributes@, attribute_rows(items_at(v, "attributes"@)))
    &&& effects_match(f.effects@, effect_rows(items_at(v, "effects"@)))
    &&& equipment_read(f.equipment, v)
    &&& passengers_read(f.passengers@, items_at(v, "passengers"@))
    &&& same_text(f.extra_nbt, get_str(v, "extraNbt"@))
}

/// Reads a `/summon` form (see `summon_read`).
pub fn read_summon(v: &JsonValue, version: GiveVersion) -> (f: SummonForm)
    ensures
        summon_read(f, v@, version),
{
    SummonForm {
        version,
        with_slash: flag(v, "withSlash"),
        entity_type: string_or_empty(v, "entityType"),
        x: get_string(v, "x"),
        y: get_string(v, "y"),
        z: get_string(v, "z"),
        custom_name: parse_rich_line(v, "customName"),
        no_ai: flag(v, "noAI"),
        silent: flag(v, "silent"),
        persistence_required: flag(v, "persistenceRequired"),
        invulnerable: flag(v, "invulnerable"),
        no_gravity: flag(v, "noGravity"),
        glowing: flag(v, "glowing"),
        rotation: read_rotation(v),
        health: opt_number(v, "health"),
        tags: read_strings(v, "tags"),
        attributes: read_attributes(v),
        effects: read_effects(v, "effects"),
        equipment: parse_equipment(v),
        passengers: read_passengers(v),
        extra_nbt: get_string(v, "extraNbt"),
    }
}

} // verus!
