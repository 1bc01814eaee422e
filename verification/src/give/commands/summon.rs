//! `/summon <entity_type> [<x> <y> <z>] [{nbt}]` (1.20.5 and later). Everything that depends
//! on the version (attributes, equipment, custom names) is written by `commands::nbt`; this
//! module only puts the pieces together.

use vstd::prelude::*;
use crate::give::builder::{
    at_least, bool_byte, bool_byte_spec, finish_command, is_modern_nbt_family, json_quoted, quote, slashed,
    text_profile_of, GiveVersion,
};
use crate::give::catalog::{namespaced, namespaced_spec};
use crate::give::commands::nbt::{
    attributes_spec, comma_joined, effects_spec, equipment_spec, serialize_attributes, serialize_custom_name,
    serialize_effects, serialize_equipment, NbtAttribute, NbtEffect, NbtEquipment,
};
use crate::give::component::{append_texts, join_texts, push_text, text_spec, RichLine};
use crate::give::json::{texts, views};
use crate::give::number::Decimal;
use crate::text::{push_str, string_from, trim, trim_spec};

verus! {

/// An entity riding the summoned one.
#[derive(Debug, Default)]
pub struct SummonPassenger {
    pub entity_type: String,
    pub no_ai: bool,
    pub silent: bool,
    pub custom_name: Option<RichLine>,
    /// Serialised SNBT members, comma separated, without the outer braces.
    pub extra_nbt: Option<String>,
}

/// A `/summon` intent.
#[derive(Debug)]
pub struct SummonForm {
    pub version: GiveVersion,
    pub with_slash: bool,
    pub entity_type: String,
    /// Coordinates: `0`, `~`, `~1` or `^1`. They are written only when all three are given,
    /// or when NBT follows (a missing one is then `~`).
    pub x: Option<String>,
    pub y: Option<String>,
    pub z: Option<String>,
    pub custom_name: Option<RichLine>,
    pub no_ai: bool,
    pub silent: bool,
    pub persistence_required: bool,
    pub invulnerable: bool,
    pub no_gravity: bool,
    pub glowing: bool,
    /// The facing at spawn, `(yaw, pitch)` in degrees.
    pub rotation: Option<(Decimal, Decimal)>,
    /// The current health. Raising `max_health` only raises the cap: to spawn at full new
    /// health, give this the same value.
    pub health: Option<Decimal>,
    pub tags: Vec<String>,
    pub attributes: Vec<NbtAttribute>,
    pub effects: Vec<NbtEffect>,
    pub equipment: Option<NbtEquipment>,
    pub passengers: Vec<SummonPassenger>,
    /// Serialised SNBT members, comma separated, without the outer braces.
    pub extra_nbt: Option<String>,
}

/// `Name:1b` when the flag is set.
pub open spec fn flag_part(on: bool, name: Seq<char>) -> Seq<Seq<char>> {
    if on {
        seq![name + ":"@ + bool_byte_spec(true)]
    } else {
        seq![]
    }
}

/// `CustomName:'...'` for a non-empty line.
pub open spec fn custom_name_part(line: Option<RichLine>, version: GiveVersion) -> Seq<Seq<char>> {
    match line {
        Some(l) => if l@.len() > 0 {
            seq!["CustomName:"@ + text_spec(views(l@), true, text_profile_of(version)).0]
        } else {
            seq![]
        },
        None => seq![],
    }
}

/// The extra SNBT, trimmed, when anything is left of it.
pub open spec fn extra_part(extra: Option<String>) -> Seq<Seq<char>> {
    match extra {
        Some(e) => if trim_spec(e@).len() > 0 {
            seq![trim_spec(e@)]
        } else {
            seq![]
        },
        None => seq![],
    }
}

/// A passenger: `{id:"minecraft:x",NoAI:1b,Silent:1b,CustomName:...,extra}`.
pub open spec fn passenger_spec(p: SummonPassenger, version: GiveVersion) -> Seq<char> {
    "{"@ + comma_joined(
        seq!["id:"@ + json_quoted(namespaced_spec(p.entity_type@))] + flag_part(p.no_ai, "NoAI"@) + flag_part(
            p.silent,
            "Silent"@,
        ) + custom_name_part(p.custom_name, version) + extra_part(p.extra_nbt),
    ) + "}"@
}

/// `Tags:["a","b"]` for a non-empty list.
pub open spec fn tags_part(tags: Seq<String>) -> Seq<Seq<char>> {
    if tags.len() > 0 {
        seq!["Tags:["@ + comma_joined(Seq::new(tags.len(), |i: int| json_quoted(tags[i]@))) + "]"@]
    } else {
        seq![]
    }
}

/// `Passengers:[...]` for a non-empty list.
pub open spec fn passengers_part(ps: Seq<SummonPassenger>, version: GiveVersion) -> Seq<Seq<char>> {
    if ps.len() > 0 {
        seq!["Passengers:["@ + comma_joined(Seq::new(ps.len(), |i: int| passenger_spec(ps[i], version))) + "]"@]
    } else {
        seq![]
    }
}

/// `Rotation:[Yf,Pf]` when a facing is given.
pub open spec fn rotation_part(rotation: Option<(Decimal, Decimal)>) -> Seq<Seq<char>> {
    match rotation {
        Some(r) => seq!["Rotation:["@ + r.0.fixed() + "f,"@ + r.1.fixed() + "f]"@],
        None => seq![],
    }
}

/// `Health:Nf` when a health is given.
pub open spec fn health_part(health: Option<Decimal>) -> Seq<Seq<char>> {
    match health {
        Some(h) => seq!["Health:"@ + h.fixed() + "f"@],
        None => seq![],
    }
}

/// The attributes member, when there are attributes.
pub open spec fn attributes_part(attrs: Seq<NbtAttribute>, modern: bool) -> Seq<Seq<char>> {
    if attrs.len() > 0 {
        seq![attributes_spec(attrs, modern)]
    } else {
        seq![]
    }
}

/// The active-effects member, when there are effects.
pub open spec fn effects_part(es: Seq<NbtEffect>) -> Seq<Seq<char>> {
    if es.len() > 0 {
        seq![effects_spec(es)]
    } else {
        seq![]
    }
}

/// The equipment members, when equipment is given.
pub open spec fn equipment_part(eq: Option<NbtEquipment>, modern: bool, version: GiveVersion) -> Seq<Seq<char>> {
    match eq {
        Some(e) => equipment_spec(e, modern, Some(version)),
        None => seq![],
    }
}

/// The members of the entity NBT, in the order they are written; `modern` selects the
/// 1.21.5 attribute and equipment forms.
pub open spec fn summon_parts(form: SummonForm, modern: bool) -> Seq<Seq<char>> {
    custom_name_part(form.custom_name, form.version) + flag_part(form.no_ai, "NoAI"@) + flag_part(
        form.silent,
        "Silent"@,
    ) + flag_part(form.persistence_required, "PersistenceRequired"@) + flag_part(form.invulnerable, "Invulnerable"@)
        + flag_part(form.no_gravity, "NoGravity"@) + flag_part(form.glowing, "Glowing"@) + rotation_part(form.rotation)
        + health_part(form.health) + tags_part(form.tags@) + attributes_part(form.attributes@, modern) + effects_part(
        form.effects@,
    ) + equipment_part(form.equipment, modern, form.version) + passengers_part(form.passengers@, form.version)
        + extra_part(form.extra_nbt)
}

/// A coordinate, `~` when missing.
pub open spec fn coord_or_here(c: Option<String>) -> Seq<char> {
    match c {
        Some(s) => s@,
        None => "~"@,
    }
}

/// The text of a `/summon` intent. NBT is the fifth positional argument, so when there is
/// NBT the coordinates are written too, `~` standing for a missing one.
pub open spec fn summon_spec(form: SummonForm) -> Seq<char> {
    let parts = summon_parts(form, at_least(form.version, GiveVersion::Java1_21_5));
    let has_pos = form.x is Some && form.y is Some && form.z is Some;
    slashed(
        form.with_slash,
        "summon "@ + namespaced_spec(form.entity_type@) + (if has_pos || parts.len() > 0 {
            position_text(form)
        } else {
            seq![]
        }) + (if parts.len() > 0 {
            " {"@ + comma_joined(parts) + "}"@
        } else {
            seq![]
        }),
    )
}

fn push_flag(parts: &mut Vec<String>, on: bool, name: &str)
    ensures
        texts(final(parts)@) == texts(old(parts)@) + flag_part(on, name@),
{
    if on {
        let mut p = string_from(name);
        push_str(&mut p, ":");
        push_str(&mut p, bool_byte(true));
        push_text(parts, p);
    } else {
        assert(texts(parts@) + Seq::<Seq<char>>::empty() =~= texts(parts@));
    }
}

fn push_custom_name(parts: &mut Vec<String>, line: &Option<RichLine>, version: GiveVersion)
    ensures
        texts(final(parts)@) == texts(old(parts)@) + custom_name_part(*line, version),
{
    match line {
        Some(l) => {
            if l.len() > 0 {
                let n = serialize_custom_name(l, version);
                let mut p = string_from("CustomName:");
                push_str(&mut p, n.as_str());
                push_text(parts, p);
                return;
            }
        },
        None => {},
    }
    assert(texts(parts@) + Seq::<Seq<char>>::empty() =~= texts(parts@));
}

fn push_extra(parts: &mut Vec<String>, extra: &Option<String>)
    ensures
        texts(final(parts)@) == texts(old(parts)@) + extra_part(*extra),
{
    match extra {
        Some(e) => {
            let t = trim(e.as_str());
            if t.unicode_len() > 0 {
                push_text(parts, t);
                return;
            }
        },
        None => {},
    }
    assert(texts(parts@) + Seq::<Seq<char>>::empty() =~= texts(parts@));
}

fn start_parts() -> (parts: Vec<String>)
    ensures
        texts(parts@) == Seq::<Seq<char>>::empty(),
{
    let parts: Vec<String> = Vec::new();
    assert(texts(parts@) =~= Seq::<Seq<char>>::empty());
    parts
}

fn passenger_nbt(p: &SummonPassenger, version: GiveVersion) -> (s: String)
    ensures
        s@ == passenger_spec(*p, version),
{
    let mut inner = start_parts();
    let mut first = string_from("id:");
    let id = namespaced(p.entity_type.as_str());
    let q = quote(id.as_str());
    push_str(&mut first, q.as_str());
    push_text(&mut inner, first);
    assert(Seq::<Seq<char>>::empty().push(first@) =~= seq!["id:"@ + json_quoted(namespaced_spec(p.entity_type@))]);
    push_flag(&mut inner, p.no_ai, "NoAI");
    push_flag(&mut inner, p.silent, "Silent");
    push_custom_name(&mut inner, &p.custom_name, version);
    push_extra(&mut inner, &p.extra_nbt);
    let j = join_texts(&inner);
    let mut s = string_from("{");
    push_str(&mut s, j.as_str());
    push_str(&mut s, "}");
    s
}

fn quoted_list(items: &Vec<String>) -> (s: String)
    ensures
        s@ == comma_joined(Seq::new(items@.len(), |i: int| json_quoted(items@[i]@))),
{
    let mut qs: Vec<String> = Vec::new();
    let mut i: usize = 0;
    while i < items.len()
        invariant
            i <= items@.len(),
            texts(qs@) == Seq::new(i as nat, |k: int| json_quoted(items@[k]@)),
        decreases items@.len() - i,
    {
        let q = quote(items[i].as_str());
        push_text(&mut qs, q);
        assert(Seq::new((i + 1) as nat, |k: int| json_quoted(items@[k]@)) =~= Seq::new(
            i as nat,
            |k: int| json_quoted(items@[k]@),
        ).push(json_quoted(items@[i as int]@)));
        i = i + 1;
    }
    join_texts(&qs)
}

fn passengers_list(ps: &Vec<SummonPassenger>, version: GiveVersion) -> (s: String)
    ensures
        s@ == comma_joined(Seq::new(ps@.len(), |i: int| passenger_spec(ps@[i], version))),
{
    let mut qs: Vec<String> = Vec::new();
    let mut i: usize = 0;
    while i < ps.len()
        invariant
            i <= ps@.len(),
            texts(qs@) == Seq::new(i as nat, |k: int| passenger_spec(ps@[k], version)),
        decreases ps@.len() - i,
    {
        let q = passenger_nbt(&ps[i], version);
        push_text(&mut qs, q);
        assert(Seq::new((i + 1) as nat, |k: int| passenger_spec(ps@[k], version)) =~= Seq::new(
            i as nat,
            |k: int| passenger_spec(ps@[k], version),
        ).push(passenger_spec(ps@[i as int], version)));
        i = i + 1;
    }
    join_texts(&qs)
}

fn push_rotation(parts: &mut Vec<String>, rotation: &Option<(Decimal, Decimal)>)
    ensures
        texts(final(parts)@) == texts(old(parts)@) + rotation_part(*rotation),
{
    match rotation {
        Some(r) => {
            let mut p = string_from("Rotation:[");
            push_str(&mut p, r.0.fixed_text().as_str());
            push_str(&mut p, "f,");
            push_str(&mut p, r.1.fixed_text().as_str());
            push_str(&mut p, "f]");
            push_text(parts, p);
        },
        None => {
            assert(texts(parts@) + Seq::<Seq<char>>::empty() =~= texts(parts@));
        },
    }
}

fn push_health(parts: &mut Vec<String>, health: &Option<Decimal>)
    ensures
        texts(final(parts)@) == texts(old(parts)@) + health_part(*health),
{
    match health {
        Some(h) => {
            let mut p = string_from("Health:");
            push_str(&mut p, h.fixed_text().as_str());
            push_str(&mut p, "f");
            push_text(parts, p);
        },
        None => {
            assert(texts(parts@) + Seq::<Seq<char>>::empty() =~= texts(parts@));
        },
    }
}

fn push_tags(parts: &mut Vec<String>, tags: &Vec<String>)
    ensures
        texts(final(parts)@) == texts(old(parts)@) + tags_part(tags@),
{
    if tags.len() > 0 {
        let mut p = string_from("Tags:[");
        let l = quoted_list(tags);
        push_str(&mut p, l.as_str());
        push_str(&mut p, "]");
        push_text(parts, p);
    } else {
        assert(texts(parts@) + Seq::<Seq<char>>::empty() =~= texts(parts@));
    }
}

fn push_attributes(parts: &mut Vec<String>, attrs: &Vec<NbtAttribute>, modern: bool)
    ensures
        texts(final(parts)@) == texts(old(parts)@) + attributes_part(attrs@, modern),
{
    if attrs.len() > 0 {
        let a = serialize_attributes(attrs.as_slice(), modern);
        push_text(parts, a);
    } else {
        assert(texts(parts@) + Seq::<Seq<char>>::empty() =~= texts(parts@));
    }
}

fn push_effects(parts: &mut Vec<String>, es: &Vec<NbtEffect>)
    ensures
        texts(final(parts)@) == texts(old(parts)@) + effects_part(es@),
{
    if es.len() > 0 {
        let e = serialize_effects(es.as_slice());
        push_text(parts, e);
    } else {
        assert(texts(parts@) + Seq::<Seq<char>>::empty() =~= texts(parts@));
    }
}

fn push_equipment(parts: &mut Vec<String>, eq: &Option<NbtEquipment>, modern: bool, version: GiveVersion)
    ensures
        texts(final(parts)@) == texts(old(parts)@) + equipment_part(*eq, modern, version),
{
    match eq {
        Some(e) => {
            let v = serialize_equipment(e, modern, Some(version));
            assert(texts(v@) =~= equipment_spec(*e, modern, Some(version)));
            append_texts(parts, v);
        },
        None => {
            assert(texts(parts@) + Seq::<Seq<char>>::empty() =~= texts(parts@));
        },
    }
}

fn push_passengers(parts: &mut Vec<String>, ps: &Vec<SummonPassenger>, version: GiveVersion)
    ensures
        texts(final(parts)@) == texts(old(parts)@) + passengers_part(ps@, version),
{
    if ps.len() > 0 {
        let mut p = string_from("Passengers:[");
        let l = passengers_list(ps, version);
        push_str(&mut p, l.as_str());
        push_str(&mut p, "]");
        push_text(parts, p);
    } else {
        assert(texts(parts@) + Seq::<Seq<char>>::empty() =~= texts(parts@));
    }
}

fn build_nbt_parts(form: &SummonForm, modern: bool) -> (parts: Vec<String>)
    ensures
        texts(parts@) == summon_parts(*form, modern),
{
    let mut parts = start_parts();
    push_custom_name(&mut parts, &form.custom_name, form.version);
    assert(texts(parts@) =~= custom_name_part(form.custom_name, form.version));
    push_flag(&mut parts, form.no_ai, "NoAI");
    push_flag(&mut parts, form.silent, "Silent");
    push_flag(&mut parts, form.persistence_required, "PersistenceRequired");
    push_flag(&mut parts, form.invulnerable, "Invulnerable");
    push_flag(&mut parts, form.no_gravity, "NoGravity");
    push_flag(&mut parts, form.glowing, "Glowing");
    push_rotation(&mut parts, &form.rotation);
    push_health(&mut parts, &form.health);
    push_tags(&mut parts, &form.tags);
    push_attributes(&mut parts, &form.attributes, modern);
    push_effects(&mut parts, &form.effects);
    push_equipment(&mut parts, &form.equipment, modern, form.version);
    push_passengers(&mut parts, &form.passengers, form.version);
    push_extra(&mut parts, &form.extra_nbt);
    parts
}

/// The position text: the three coordinates, `~` standing for a missing one.
pub open spec fn position_text(form: SummonForm) -> Seq<char> {
    " "@ + coord_or_here(form.x) + " "@ + coord_or_here(form.y) + " "@ + coord_or_here(form.z)
}

fn push_position(cmd: &mut String, form: &SummonForm)
    ensures
        final(cmd)@ == old(cmd)@ + position_text(*form),
{
    push_str(cmd, " ");
    push_coord(cmd, &form.x);
    push_str(cmd, " ");
    push_coord(cmd, &form.y);
    push_str(cmd, " ");
    push_coord(cmd, &form.z);
    assert(cmd@ =~= old(cmd)@ + position_text(*form));
}

fn push_nbt_block(cmd: &mut String, parts: &Vec<String>)
    ensures
        final(cmd)@ == old(cmd)@ + " {"@ + comma_joined(texts(parts@)) + "}"@,
{
    push_str(cmd, " {");
    let j = join_texts(parts);
    push_str(cmd, j.as_str());
    push_str(cmd, "}");
}

/// Builds a `/summon` command (see `summon_spec`).
pub fn build_summon_command(form: &SummonForm) -> (s: String)
    ensures
        s@ == summon_spec(*form),
{
    let modern = is_modern_nbt_family(form.version);
    let parts = build_nbt_parts(form, modern);
    let ghost ps = texts(parts@);
    assert(ps.len() == parts@.len());
    let has_nbt = parts.len() > 0;
    let has_pos = form.x.is_some() && form.y.is_some() && form.z.is_some();
    let mut cmd = string_from("summon ");
    let e = namespaced(form.entity_type.as_str());
    push_str(&mut cmd, e.as_str());
    let ghost head = cmd@;
    if has_pos || has_nbt {
        push_position(&mut cmd, form);
    }
    let ghost with_pos = cmd@;
    assert(with_pos =~= head + (if has_pos || ps.len() > 0 {
        position_text(*form)
    } else {
        seq![]
    }));
    if has_nbt {
        push_nbt_block(&mut cmd, &parts);
    }
    assert(cmd@ =~= with_pos + (if ps.len() > 0 {
        " {"@ + comma_joined(ps) + "}"@
    } else {
        seq![]
    }));
    finish_command(form.with_slash, cmd)
}

fn push_coord(s: &mut String, c: &Option<String>)
    ensures
        final(s)@ == old(s)@ + coord_or_here(*c),
{
    match c {
        Some(v) => push_str(s, v.as_str()),
        None => push_str(s, "~"),
    }
}

} // verus!
