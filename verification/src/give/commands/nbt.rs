//! Entity and block-entity NBT, shared by the commands that carry items or effects: items in
//! containers and equipment slots, active effects, attribute ids. (Verified against the game:
//! item-in-NBT is `{id:"minecraft:stone", count:5, Slot:0b, components:{...}}`; effects use
//! `active_effects[]` with a string id in every version; equipment is `HandItems[]` and
//! `ArmorItems[]` up to 1.21.4 and `equipment{}` from 1.21.5.)

use vstd::prelude::*;
use crate::give::builder::{
    bool_byte, bool_byte_spec, component_id, component_id_spec, is_java121_legacy_family, json_quoted, quote,
    GiveVersion,
};
use crate::give::catalog::{namespaced, namespaced_spec};
use crate::give::builder::text_profile_of;
use crate::give::component::{rich_line_to_snbt_string, text_spec, RichLine};
use crate::give::json::views;
use crate::give::number::Decimal;
use crate::text::{chars_of, int_text, push_i64, push_range, push_str, string_from, strip_prefix, strip_prefix_spec, trim, trim_spec};

verus! {

/// One enchantment of an item in NBT.
#[derive(Clone, Debug)]
pub struct NbtEnchantment {
    pub id: String,
    pub level: i64,
}

/// An item inside NBT (container slot, equipment slot).
#[derive(Clone, Debug, Default)]
pub struct NbtItem {
    pub id: String,
    pub count: Option<i64>,
    /// Written with the same rules as `/give` (the `levels` wrapper by version).
    pub enchantments: Option<Vec<NbtEnchantment>>,
    /// Serialised SNBT component values, such as `'{"text":"x"}'` or `1b`, in order.
    pub components: Vec<(String, String)>,
}

/// The parts joined by commas.
pub open spec fn comma_joined(parts: Seq<Seq<char>>) -> Seq<char>
    decreases parts.len(),
{
    if parts.len() == 0 {
        seq![]
    } else if parts.len() == 1 {
        parts[0]
    } else {
        comma_joined(parts.drop_last()) + ","@ + parts.last()
    }
}

/// The `id:level` entries of the enchantments with a non-blank id.
pub open spec fn enchant_entries(es: Seq<NbtEnchantment>) -> Seq<Seq<char>>
    decreases es.len(),
{
    if es.len() == 0 {
        seq![]
    } else {
        let r = enchant_entries(es.drop_last());
        let e = es.last();
        if trim_spec(e.id@).len() > 0 {
            r.push(component_id_spec(e.id@) + ":"@ + int_text(e.level as int))
        } else {
            r
        }
    }
}

/// The enchantments component value: `{levels:{...}}` for 1.21 and 1.21.1, `{...}` otherwise.
pub open spec fn enchant_value(es: Seq<NbtEnchantment>, version: GiveVersion) -> Seq<char> {
    let entries = comma_joined(enchant_entries(es));
    if version == GiveVersion::Java1_21 || version == GiveVersion::Java1_21_1 {
        "{levels:{"@ + entries + "}}"@
    } else {
        "{"@ + entries + "}"@
    }
}

/// The (key, value) components of an item: its own, then the enchantments when a version is
/// given and there are some.
pub open spec fn item_components(item: NbtItem, version: Option<GiveVersion>) -> Seq<(Seq<char>, Seq<char>)> {
    let own = Seq::new(item.components@.len(), |i: int| (item.components@[i].0@, item.components@[i].1@));
    match (version, item.enchantments) {
        (Some(v), Some(es)) => if es@.len() > 0 {
            own.push(("enchantments"@, enchant_value(es@, v)))
        } else {
            own
        },
        _ => own,
    }
}

/// `"namespaced key":value` entries.
pub open spec fn component_entries(cs: Seq<(Seq<char>, Seq<char>)>) -> Seq<Seq<char>> {
    Seq::new(cs.len(), |i: int| json_quoted(namespaced_spec(cs[i].0)) + ":"@ + cs[i].1)
}

/// An item in NBT: `{id:"...",count:N}` with `,components:{...}` when it has components.
pub open spec fn item_spec(item: NbtItem, version: Option<GiveVersion>) -> Seq<char> {
    let cs = item_components(item, version);
    "{id:"@ + json_quoted(namespaced_spec(item.id@)) + ",count:"@ + int_text(
        match item.count {
            Some(c) => c as int,
            None => 1,
        },
    ) + (if cs.len() > 0 {
        ",components:{"@ + comma_joined(component_entries(cs)) + "}"@
    } else {
        seq![]
    }) + "}"@
}

fn push_joined_entry(s: &mut String, first: bool, entry: &str)
    ensures
        final(s)@ == old(s)@ + (if first { seq![] } else { ","@ }) + entry@,
{
    if !first {
        push_str(s, ",");
    } else {
        assert(old(s)@ + Seq::<char>::empty() =~= old(s)@);
    }
    push_str(s, entry);
}

fn enchantments_value(es: &Vec<NbtEnchantment>, version: GiveVersion) -> (s: String)
    ensures
        s@ == enchant_value(es@, version),
{
    let mut entries = String::new();
    let mut count: usize = 0;
    let mut i: usize = 0;
    while i < es.len()
        invariant
            i <= es@.len(),
            count == enchant_entries(es@.subrange(0, i as int)).len(),
            count <= i,
            entries@ == comma_joined(enchant_entries(es@.subrange(0, i as int))),
        decreases es@.len() - i,
    {
        let e = &es[i];
        let ghost prev = enchant_entries(es@.subrange(0, i as int));
        proof {
            let next = es@.subrange(0, i + 1);
            assert(next.drop_last() =~= es@.subrange(0, i as int));
        }
        if !crate::text::is_blank(e.id.as_str()) {
            let mut entry = component_id(e.id.as_str());
            push_str(&mut entry, ":");
            push_i64(&mut entry, e.level);
            push_joined_entry(&mut entries, count == 0, entry.as_str());
            count = count + 1;
            proof {
                assert(prev.push(entry@).drop_last() =~= prev);
            }
        }
        i = i + 1;
    }
    assert(es@.subrange(0, es@.len() as int) =~= es@);
    if is_java121_legacy_family(version) {
        let mut s = string_from("{levels:{");
        push_str(&mut s, entries.as_str());
        push_str(&mut s, "}}");
        s
    } else {
        let mut s = string_from("{");
        push_str(&mut s, entries.as_str());
        push_str(&mut s, "}");
        s
    }
}

fn push_component(s: &mut String, first: bool, key: &str, value: &str)
    ensures
        final(s)@ == old(s)@ + (if first { seq![] } else { ","@ }) + json_quoted(namespaced_spec(key@)) + ":"@ + value@,
{
    let k = namespaced(key);
    let mut entry = quote(k.as_str());
    push_str(&mut entry, ":");
    push_str(&mut entry, value);
    push_joined_entry(s, first, entry.as_str());
}

fn push_components(s: &mut String, own: &Vec<(String, String)>, ench: &Option<String>)
    ensures
        final(s)@ == old(s)@ + comma_joined(component_entries(
            Seq::new(own@.len(), |i: int| (own@[i].0@, own@[i].1@)) + (match *ench {
                Some(e) => seq![("enchantments"@, e@)],
                None => seq![],
            }),
        )),
{
    let ghost open = s@;
    let ghost ownv = Seq::new(own@.len(), |j: int| (own@[j].0@, own@[j].1@));
    let mut i: usize = 0;
    while i < own.len()
        invariant
            i <= own@.len(),
            ownv == Seq::new(own@.len(), |j: int| (own@[j].0@, own@[j].1@)),
            s@ == open + comma_joined(component_entries(ownv.subrange(0, i as int))),
        decreases own@.len() - i,
    {
        push_component(s, i == 0, own[i].0.as_str(), own[i].1.as_str());
        proof {
            let next = ownv.subrange(0, i + 1);
            assert(component_entries(next).drop_last() =~= component_entries(ownv.subrange(0, i as int)));
        }
        i = i + 1;
    }
    assert(ownv.subrange(0, ownv.len() as int) =~= ownv);
    match ench {
        Some(e) => {
            push_component(s, own.len() == 0, "enchantments", e.as_str());
            proof {
                reveal_strlit("enchantments");
                let cs = ownv + seq![("enchantments"@, e@)];
                assert(component_entries(cs).drop_last() =~= component_entries(ownv));
            }
        },
        None => {
            assert(ownv + Seq::<(Seq<char>, Seq<char>)>::empty() =~= ownv);
        },
    }
}

fn item_enchantments(item: &NbtItem, version: Option<GiveVersion>) -> (e: Option<String>)
    ensures
        item_components(*item, version) == Seq::new(item.components@.len(), |i: int| (item.components@[i].0@, item.components@[i].1@))
            + (match e {
            Some(x) => seq![("enchantments"@, x@)],
            None => seq![],
        }),
{
    let ghost own = Seq::new(item.components@.len(), |i: int| (item.components@[i].0@, item.components@[i].1@));
    match (version, &item.enchantments) {
        (Some(v), Some(es)) => if es.len() > 0 {
            let x = enchantments_value(es, v);
            assert(own.push(("enchantments"@, x@)) =~= own + seq![("enchantments"@, x@)]);
            Some(x)
        } else {
            assert(own =~= own + Seq::<(Seq<char>, Seq<char>)>::empty());
            None
        },
        _ => {
            assert(own =~= own + Seq::<(Seq<char>, Seq<char>)>::empty());
            None
        },
    }
}

/// Serialises an item for NBT (no `Slot`; see `item_spec`). Without a version the
/// enchantments are left out.
pub fn serialize_item(item: &NbtItem, version: Option<GiveVersion>) -> (s: String)
    ensures
        s@ == item_spec(*item, version),
{
    let mut s = string_from("{id:");
    let n = namespaced(item.id.as_str());
    let q = quote(n.as_str());
    push_str(&mut s, q.as_str());
    push_str(&mut s, ",count:");
    let c: i64 = match item.count {
        Some(c) => c,
        None => 1,
    };
    push_i64(&mut s, c);
    let ghost head = s@;
    let ench = item_enchantments(item, version);
    let ghost cs = item_components(*item, version);
    if item.components.len() > 0 || ench.is_some() {
        push_str(&mut s, ",components:{");
        push_components(&mut s, &item.components, &ench);
        push_str(&mut s, "}");
    }
    push_str(&mut s, "}");
    assert(s@ =~= item_spec(*item, version));
    s
}

/// A container slot: `{Slot:Nb,` followed by the item without its opening brace.
pub open spec fn container_item_spec(slot: i64, item: NbtItem, version: Option<GiveVersion>) -> Seq<char> {
    "{Slot:"@ + int_text(slot as int) + "b,"@ + item_spec(item, version).drop_first()
}

/// Serialises a container slot (chest, barrel, hopper): `Slot` as a byte, first.
pub fn serialize_container_item(slot: i64, item: &NbtItem, version: Option<GiveVersion>) -> (s: String)
    ensures
        s@ == container_item_spec(slot, *item, version),
{
    let serialized = serialize_item(item, version);
    let v = chars_of(serialized.as_str());
    let mut s = string_from("{Slot:");
    push_i64(&mut s, slot);
    push_str(&mut s, "b,");
    push_range(&mut s, &v, 1, v.len());
    assert(v@.subrange(1, v@.len() as int) =~= v@.drop_first());
    s
}

/// An attribute id in the form a version expects: `minecraft:generic.<name>` up to 1.21.4,
/// `minecraft:<name>` from 1.21.5, whatever prefixes the input had.
pub open spec fn attribute_id_spec(raw: Seq<char>, with_generic: bool) -> Seq<char> {
    let t = trim_spec(raw);
    let a = match strip_prefix_spec(t, "minecraft:"@) {
        Some(r) => r,
        None => t,
    };
    let name = match strip_prefix_spec(a, "generic."@) {
        Some(r) => r,
        None => a,
    };
    if with_generic {
        "minecraft:generic."@ + name
    } else {
        "minecraft:"@ + name
    }
}

/// Normalises an attribute id (see `attribute_id_spec`).
pub fn normalize_attribute_id(raw: &str, with_generic: bool) -> (s: String)
    ensures
        s@ == attribute_id_spec(raw@, with_generic),
{
    let t = trim(raw);
    let a = match strip_prefix(t.as_str(), "minecraft:") {
        Some(r) => r,
        None => t,
    };
    let name = match strip_prefix(a.as_str(), "generic.") {
        Some(r) => r,
        None => a,
    };
    let mut s = if with_generic { string_from("minecraft:generic.") } else { string_from("minecraft:") };
    push_str(&mut s, name.as_str());
    s
}

/// An entity attribute and its base value.
#[derive(Clone, Debug)]
pub struct NbtAttribute {
    /// With or without `minecraft:` / `generic.`; normalised by version when written.
    pub id: String,
    pub base: Decimal,
}

/// One attribute entry: `{id:"minecraft:x",base:Nd}` from 1.21.5, `{Name:"minecraft:generic.x",Base:Nd}`
/// before.
pub open spec fn attribute_entry_spec(a: NbtAttribute, modern: bool) -> Seq<char> {
    if modern {
        "{id:"@ + json_quoted(attribute_id_spec(a.id@, false)) + ",base:"@ + a.base.fixed() + "d}"@
    } else {
        "{Name:"@ + json_quoted(attribute_id_spec(a.id@, true)) + ",Base:"@ + a.base.fixed() + "d}"@
    }
}

/// `attributes:[...]` from 1.21.5, `Attributes:[...]` before; nothing for no attributes.
pub open spec fn attributes_spec(attrs: Seq<NbtAttribute>, modern: bool) -> Seq<char> {
    if attrs.len() == 0 {
        seq![]
    } else {
        (if modern {
            "attributes:["@
        } else {
            "Attributes:["@
        }) + comma_joined(Seq::new(attrs.len(), |i: int| attribute_entry_spec(attrs[i], modern))) + "]"@
    }
}

fn attribute_entry(a: &NbtAttribute, modern: bool) -> (s: String)
    ensures
        s@ == attribute_entry_spec(*a, modern),
{
    let id = normalize_attribute_id(a.id.as_str(), !modern);
    let mut s = string_from(if modern { "{id:" } else { "{Name:" });
    push_str(&mut s, quote(id.as_str()).as_str());
    push_str(&mut s, if modern { ",base:" } else { ",Base:" });
    push_str(&mut s, a.base.fixed_text().as_str());
    push_str(&mut s, "d}");
    s
}

/// Serialises entity attributes (see `attributes_spec`).
pub fn serialize_attributes(attrs: &[NbtAttribute], modern: bool) -> (s: String)
    ensures
        s@ == attributes_spec(attrs@, modern),
{
    if attrs.len() == 0 {
        return String::new();
    }
    let ghost entries = Seq::new(attrs@.len(), |i: int| attribute_entry_spec(attrs@[i], modern));
    let mut s = string_from(if modern { "attributes:[" } else { "Attributes:[" });
    let ghost open = s@;
    let mut i: usize = 0;
    while i < attrs.len()
        invariant
            i <= attrs@.len(),
            entries == Seq::new(attrs@.len(), |j: int| attribute_entry_spec(attrs@[j], modern)),
            s@ == open + comma_joined(entries.subrange(0, i as int)),
        decreases attrs@.len() - i,
    {
        let e = attribute_entry(&attrs[i], modern);
        push_joined_entry(&mut s, i == 0, e.as_str());
        proof {
            let next = entries.subrange(0, i + 1);
            assert(next.drop_last() =~= entries.subrange(0, i as int));
        }
        i = i + 1;
    }
    assert(entries.subrange(0, entries.len() as int) =~= entries);
    push_str(&mut s, "]");
    s
}

/// A custom name: the line as a single-quoted SNBT string of JSON, written like `/give`'s text
/// in every version (a warning of the text has nowhere to go here and is dropped).
pub fn serialize_custom_name(line: &RichLine, version: GiveVersion) -> (s: String)
    ensures
        s@ == text_spec(views(line@), true, text_profile_of(version)).0,
{
    let mut warnings: Vec<String> = Vec::new();
    rich_line_to_snbt_string(line, version, &mut warnings)
}

/// One active effect.
#[derive(Clone, Debug)]
pub struct NbtEffect {
    pub id: String,
    pub duration: Option<i64>,
    pub amplifier: Option<i64>,
    pub show_particles: Option<bool>,
}

/// One effect entry: duration 200 ticks, amplifier 0 and particles shown by default.
pub open spec fn effect_entry_spec(e: NbtEffect) -> Seq<char> {
    "{id:"@ + json_quoted(namespaced_spec(e.id@)) + ",duration:"@ + int_text(
        match e.duration {
            Some(d) => d as int,
            None => 200,
        },
    ) + ",amplifier:"@ + int_text(
        match e.amplifier {
            Some(a) => a as int,
            None => 0,
        },
    ) + "b,show_particles:"@ + bool_byte_spec(
        match e.show_particles {
            Some(b) => b,
            None => true,
        },
    ) + "}"@
}

/// `active_effects:[...]`, or nothing for no effects (the same in every version).
pub open spec fn effects_spec(es: Seq<NbtEffect>) -> Seq<char> {
    if es.len() == 0 {
        seq![]
    } else {
        "active_effects:["@ + comma_joined(Seq::new(es.len(), |i: int| effect_entry_spec(es[i]))) + "]"@
    }
}

fn effect_entry(e: &NbtEffect) -> (s: String)
    ensures
        s@ == effect_entry_spec(*e),
{
    let mut s = string_from("{id:");
    let n = namespaced(e.id.as_str());
    let q = quote(n.as_str());
    push_str(&mut s, q.as_str());
    push_str(&mut s, ",duration:");
    let d: i64 = match e.duration {
        Some(d) => d,
        None => 200,
    };
    push_i64(&mut s, d);
    push_str(&mut s, ",amplifier:");
    let a: i64 = match e.amplifier {
        Some(a) => a,
        None => 0,
    };
    push_i64(&mut s, a);
    push_str(&mut s, "b,show_particles:");
    let show = match e.show_particles {
        Some(b) => b,
        None => true,
    };
    push_str(&mut s, bool_byte(show));
    push_str(&mut s, "}");
    s
}

/// Serialises active effects (see `effects_spec`).
pub fn serialize_effects(effects: &[NbtEffect]) -> (s: String)
    ensures
        s@ == effects_spec(effects@),
{
    if effects.len() == 0 {
        return String::new();
    }
    let ghost entries = Seq::new(effects@.len(), |i: int| effect_entry_spec(effects@[i]));
    let mut s = string_from("active_effects:[");
    let ghost open = s@;
    let mut i: usize = 0;
    while i < effects.len()
        invariant
            i <= effects@.len(),
            entries == Seq::new(effects@.len(), |j: int| effect_entry_spec(effects@[j])),
            s@ == open + comma_joined(entries.subrange(0, i as int)),
        decreases effects@.len() - i,
    {
        let e = effect_entry(&effects[i]);
        push_joined_entry(&mut s, i == 0, e.as_str());
        proof {
            let next = entries.subrange(0, i + 1);
            assert(next.drop_last() =~= entries.subrange(0, i as int));
        }
        i = i + 1;
    }
    assert(entries.subrange(0, entries.len() as int) =~= entries);
    push_str(&mut s, "]");
    s
}

/// The equipment slots of an entity.
#[derive(Clone, Debug, Default)]
pub struct NbtEquipment {
    pub mainhand: Option<NbtItem>,
    pub offhand: Option<NbtItem>,
    pub head: Option<NbtItem>,
    pub chest: Option<NbtItem>,
    pub legs: Option<NbtItem>,
    pub feet: Option<NbtItem>,
}

/// The filled slots, in the order mainhand, offhand, head, chest, legs, feet.
pub open spec fn filled_slots(eq: NbtEquipment) -> Seq<(Seq<char>, NbtItem)> {
    let a = match eq.mainhand { Some(i) => seq![("mainhand"@, i)], None => seq![] };
    let b = match eq.offhand { Some(i) => seq![("offhand"@, i)], None => seq![] };
    let c = match eq.head { Some(i) => seq![("head"@, i)], None => seq![] };
    let d = match eq.chest { Some(i) => seq![("chest"@, i)], None => seq![] };
    let e = match eq.legs { Some(i) => seq![("legs"@, i)], None => seq![] };
    let f = match eq.feet { Some(i) => seq![("feet"@, i)], None => seq![] };
    a + b + c + d + e + f
}

/// A slot of the legacy fixed-size arrays: the item, or `{}` when empty.
pub open spec fn legacy_slot(item: Option<NbtItem>, version: Option<GiveVersion>) -> Seq<char> {
    match item {
        Some(i) => item_spec(i, version),
        None => "{}"@,
    }
}

/// The equipment fragments: one `equipment:{slot:item,...}` compound from 1.21.5 (none when
/// every slot is empty); before that `HandItems:[main,off]` when a hand holds something and
/// `ArmorItems:[feet,legs,chest,head]` when any armour slot does.
pub open spec fn equipment_spec(eq: NbtEquipment, modern: bool, version: Option<GiveVersion>) -> Seq<Seq<char>> {
    if modern {
        let filled = filled_slots(eq);
        if filled.len() == 0 {
            seq![]
        } else {
            seq![
                "equipment:{"@ + comma_joined(
                    Seq::new(filled.len(), |i: int| filled[i].0 + ":"@ + item_spec(filled[i].1, version)),
                ) + "}"@,
            ]
        }
    } else {
        let hands = if eq.mainhand is Some || eq.offhand is Some {
            seq!["HandItems:["@ + legacy_slot(eq.mainhand, version) + ","@ + legacy_slot(eq.offhand, version) + "]"@]
        } else {
            seq![]
        };
        let armor = if eq.feet is Some || eq.legs is Some || eq.chest is Some || eq.head is Some {
            seq![
                "ArmorItems:["@ + legacy_slot(eq.feet, version) + ","@ + legacy_slot(eq.legs, version) + ","@
                    + legacy_slot(eq.chest, version) + ","@ + legacy_slot(eq.head, version) + "]"@,
            ]
        } else {
            seq![]
        };
        hands + armor
    }
}

fn legacy_slot_text(item: &Option<NbtItem>, version: Option<GiveVersion>) -> (s: String)
    ensures
        s@ == legacy_slot(*item, version),
{
    match item {
        Some(i) => serialize_item(i, version),
        None => string_from("{}"),
    }
}

fn push_slot(
    s: &mut String,
    count: &mut usize,
    name: &str,
    item: &Option<NbtItem>,
    version: Option<GiveVersion>,
    Ghost(done): Ghost<Seq<(Seq<char>, NbtItem)>>,
    Ghost(open): Ghost<Seq<char>>,
) -> (after: Ghost<Seq<(Seq<char>, NbtItem)>>)
    requires
        *old(count) == done.len(),
        *old(count) < usize::MAX,
        old(s)@ == open + comma_joined(Seq::new(done.len(), |i: int| done[i].0 + ":"@ + item_spec(done[i].1, version))),
    ensures
        after@ == done + (match *item { Some(i) => seq![(name@, i)], None => seq![] }),
        *final(count) == after@.len(),
        final(s)@ == open + comma_joined(Seq::new(after@.len(), |i: int| after@[i].0 + ":"@ + item_spec(after@[i].1, version))),
{
    match item {
        Some(i) => {
            let mut entry = string_from(name);
            push_str(&mut entry, ":");
            let it = serialize_item(i, version);
            push_str(&mut entry, it.as_str());
            push_joined_entry(s, *count == 0, entry.as_str());
            *count = *count + 1;
            let ghost after = done.push((name@, *i));
            proof {
                let f = |k: int| after[k].0 + ":"@ + item_spec(after[k].1, version);
                let g = |k: int| done[k].0 + ":"@ + item_spec(done[k].1, version);
                assert(Seq::new(after.len(), f).drop_last() =~= Seq::new(done.len(), g));
                assert(done + seq![(name@, *i)] =~= after);
            }
            Ghost(after)
        },
        None => {
            assert(done + Seq::<(Seq<char>, NbtItem)>::empty() =~= done);
            Ghost(done)
        },
    }
}

/// Serialises entity equipment (see `equipment_spec`); with a version, the items'
/// enchantments are written as that version expects.
pub fn serialize_equipment(eq: &NbtEquipment, modern: bool, version: Option<GiveVersion>) -> (v: Vec<String>)
    ensures
        Seq::new(v@.len(), |i: int| v@[i]@) == equipment_spec(*eq, modern, version),
{
    if modern {
        let mut s = string_from("equipment:{");
        let ghost open = s@;
        let mut count: usize = 0;
        let ghost done: Seq<(Seq<char>, NbtItem)> = Seq::empty();
        assert(s@ =~= open + comma_joined(Seq::new(done.len(), |i: int| done[i].0 + ":"@ + item_spec(done[i].1, version))));
        let Ghost(d1) = push_slot(&mut s, &mut count, "mainhand", &eq.mainhand, version, Ghost(done), Ghost(open));
        let Ghost(d2) = push_slot(&mut s, &mut count, "offhand", &eq.offhand, version, Ghost(d1), Ghost(open));
        let Ghost(d3) = push_slot(&mut s, &mut count, "head", &eq.head, version, Ghost(d2), Ghost(open));
        let Ghost(d4) = push_slot(&mut s, &mut count, "chest", &eq.chest, version, Ghost(d3), Ghost(open));
        let Ghost(d5) = push_slot(&mut s, &mut count, "legs", &eq.legs, version, Ghost(d4), Ghost(open));
        let Ghost(d6) = push_slot(&mut s, &mut count, "feet", &eq.feet, version, Ghost(d5), Ghost(open));
        proof {
            reveal_strlit("mainhand");
            reveal_strlit("offhand");
            reveal_strlit("head");
            reveal_strlit("chest");
            reveal_strlit("legs");
            reveal_strlit("feet");
            assert(d6 =~= filled_slots(*eq));
        }
        if count == 0 {
            let v: Vec<String> = Vec::new();
            assert(Seq::new(v@.len(), |i: int| v@[i]@) =~= equipment_spec(*eq, modern, version));
            return v;
        }
        push_str(&mut s, "}");
        let mut v: Vec<String> = Vec::new();
        v.push(s);
        assert(Seq::new(v@.len(), |i: int| v@[i]@) =~= equipment_spec(*eq, modern, version));
        return v;
    }
    let mut v: Vec<String> = Vec::new();
    if eq.mainhand.is_some() || eq.offhand.is_some() {
        let mut h = string_from("HandItems:[");
        let m = legacy_slot_text(&eq.mainhand, version);
        push_str(&mut h, m.as_str());
        push_str(&mut h, ",");
        let o = legacy_slot_text(&eq.offhand, version);
        push_str(&mut h, o.as_str());
        push_str(&mut h, "]");
        v.push(h);
    }
    let ghost hands = Seq::new(v@.len(), |i: int| v@[i]@);
    if eq.feet.is_some() || eq.legs.is_some() || eq.chest.is_some() || eq.head.is_some() {
        let mut a = string_from("ArmorItems:[");
        let f = legacy_slot_text(&eq.feet, version);
        push_str(&mut a, f.as_str());
        push_str(&mut a, ",");
        let l = legacy_slot_text(&eq.legs, version);
        push_str(&mut a, l.as_str());
        push_str(&mut a, ",");
        let c = legacy_slot_text(&eq.chest, version);
        push_str(&mut a, c.as_str());
        push_str(&mut a, ",");
        let h = legacy_slot_text(&eq.head, version);
        push_str(&mut a, h.as_str());
        push_str(&mut a, "]");
        v.push(a);
    }
    assert(Seq::new(v@.len(), |i: int| v@[i]@) =~= equipment_spec(*eq, modern, version));
    v
}

} // verus!
