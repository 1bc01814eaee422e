//! The catalog checks of the dispatcher. The manual builders let an unknown id through (it
//! may be a mod item), but the model was given the official catalogs: an id it uses that is
//! not in them is almost always made up, and is refused here instead of reaching a command.

use vstd::prelude::*;
use crate::give::catalog::{catalog_miss, catalog_miss_spec, Indexed};
use crate::give::dispatch::fields::{first_some, opt_text};
use crate::give::json::{get_str, get_string, jget, lemma_member_views, lemma_views, member_views, views, JsonValue, JsonView};
use crate::text::{chars_of, find_char, index_of_char, push_range, push_str, str_eq};

verus! {

/// The catalog refusal of an optional text.
pub fn miss(kind: &str, raw: &Option<String>, cat: &Indexed) -> (r: Option<String>)
    ensures
        opt_text(r) == catalog_miss_spec(kind@, opt_text(*raw), cat.rows@),
{
    let r = match raw {
        Some(t) => catalog_miss(kind, Some(t.as_str()), cat),
        None => catalog_miss(kind, None, cat),
    };
    r
}

/// The first refusal among the `id`s of a list's rows, in order.
pub open spec fn first_miss(kind: Seq<char>, items: Seq<JsonView>, rows: Seq<(&str, &str)>) -> Option<Seq<char>>
    decreases items.len(),
{
    if items.len() == 0 {
        None
    } else {
        first_some(catalog_miss_spec(kind, get_str(items[0], "id"@), rows), first_miss(kind, items.drop_first(), rows))
    }
}

/// The first refusal among the `id`s of a list (`[{id}, ...]`); none when it is not a list.
pub open spec fn list_miss(kind: Seq<char>, list: Option<JsonView>, rows: Seq<(&str, &str)>) -> Option<Seq<char>> {
    match list {
        Some(JsonView::Array(a)) => first_miss(kind, a, rows),
        _ => None,
    }
}

pub(crate) fn first_catalog_miss_in_list(kind: &str, list: Option<&JsonValue>, cat: &Indexed) -> (r: Option<String>)
    ensures
        opt_text(r) == list_miss(
            kind@,
            match list {
                Some(x) => Some(x@),
                None => None,
            },
            cat.rows@,
        ),
{
    let x0 = match list {
        Some(x) => x,
        None => return None,
    };
    let a = match x0.as_array() {
        Some(a) => a,
        None => return None,
    };
    proof {
        lemma_views(a@);
    }
    let ghost s = views(a@);
    assert(s.subrange(0, s.len() as int) =~= s);
    let mut i: usize = 0;
    while i < a.len()
        invariant
            i <= a@.len(),
            s == views(a@),
            s.len() == a@.len(),
            forall|j: int| 0 <= j < a@.len() ==> #[trigger] s[j] == a@[j]@,
            first_miss(kind@, s, cat.rows@) == first_miss(kind@, s.subrange(i as int, s.len() as int), cat.rows@),
            list_miss(
                kind@,
                match list {
                    Some(x) => Some(x@),
                    None => None,
                },
                cat.rows@,
            ) == first_miss(kind@, s, cat.rows@),
        decreases a@.len() - i,
    {
        let id = get_string(&a[i], "id");
        let e = miss(kind, &id, cat);
        proof {
            let rest = s.subrange(i as int, s.len() as int);
            assert(rest[0] == a@[i as int]@);
            assert(rest.drop_first() =~= s.subrange(i + 1, s.len() as int));
            assert(first_miss(kind@, rest, cat.rows@) == first_some(
                catalog_miss_spec(kind@, get_str(rest[0], "id"@), cat.rows@),
                first_miss(kind@, rest.drop_first(), cat.rows@),
            ));
        }
        if e.is_some() {
            return e;
        }
        i = i + 1;
    }
    None
}

/// The refusal of one equipment slot: its item id, then its enchantments; nothing for a
/// slot that is not an object.
pub open spec fn slot_miss(slot: JsonView, items: Seq<(&str, &str)>, enchants: Seq<(&str, &str)>) -> Option<Seq<char>> {
    if slot is Object {
        first_some(
            catalog_miss_spec("物品"@, get_str(slot, "id"@), items),
            list_miss("附魔"@, jget(slot, "enchantments"@), enchants),
        )
    } else {
        None
    }
}

/// The first refusal among the slots of an equipment object, in member order.
pub open spec fn slots_miss(ms: Seq<(Seq<char>, JsonView)>, items: Seq<(&str, &str)>, enchants: Seq<(&str, &str)>) -> Option<
    Seq<char>,
>
    decreases ms.len(),
{
    if ms.len() == 0 {
        None
    } else {
        first_some(slot_miss(ms[0].1, items, enchants), slots_miss(ms.drop_first(), items, enchants))
    }
}

/// The refusal of `equipment`: none unless it is an object.
pub open spec fn equipment_miss(eq: Option<JsonView>, items: Seq<(&str, &str)>, enchants: Seq<(&str, &str)>) -> Option<
    Seq<char>,
> {
    match eq {
        Some(JsonView::Object(ms)) => slots_miss(ms, items, enchants),
        _ => None,
    }
}

fn slot_miss_of(slot: &JsonValue, items: &Indexed, enchants: &Indexed) -> (r: Option<String>)
    ensures
        opt_text(r) == slot_miss(slot@, items.rows@, enchants.rows@),
{
    if !slot.is_object() {
        return None;
    }
    let id = get_string(slot, "id");
    let e = miss("物品", &id, items);
    if e.is_some() {
        return e;
    }
    first_catalog_miss_in_list("附魔", slot.get("enchantments"), enchants)
}

pub(crate) fn equipment_catalog_miss(eq: Option<&JsonValue>, items: &Indexed, enchants: &Indexed) -> (r: Option<String>)
    ensures
        opt_text(r) == equipment_miss(
            match eq {
                Some(x) => Some(x@),
                None => None,
            },
            items.rows@,
            enchants.rows@,
        ),
{
    let ms = match eq {
        Some(JsonValue::Object(ms)) => ms,
        _ => return None,
    };
    proof {
        lemma_member_views(ms@);
    }
    let ghost s = member_views(ms@);
    assert(s.subrange(0, s.len() as int) =~= s);
    let mut i: usize = 0;
    while i < ms.len()
        invariant
            i <= ms@.len(),
            s == member_views(ms@),
            s.len() == ms@.len(),
            forall|j: int| 0 <= j < ms@.len() ==> #[trigger] s[j] == (ms@[j].0@, ms@[j].1@),
            slots_miss(s, items.rows@, enchants.rows@) == slots_miss(
                s.subrange(i as int, s.len() as int),
                items.rows@,
                enchants.rows@,
            ),
            equipment_miss(
                match eq {
                    Some(x) => Some(x@),
                    None => None,
                },
                items.rows@,
                enchants.rows@,
            ) == slots_miss(s, items.rows@, enchants.rows@),
        decreases ms@.len() - i,
    {
        let e = slot_miss_of(&ms[i].1, items, enchants);
        proof {
            let rest = s.subrange(i as int, s.len() as int);
            assert(rest[0] == s[i as int]);
            assert(rest.drop_first() =~= s.subrange(i + 1, s.len() as int));
            assert(slots_miss(rest, items.rows@, enchants.rows@) == first_some(
                slot_miss(rest[0].1, items.rows@, enchants.rows@),
                slots_miss(rest.drop_first(), items.rows@, enchants.rows@),
            ));
        }
        if e.is_some() {
            return e;
        }
        i = i + 1;
    }
    None
}

/// The first refusal among passengers' `entityType`s; objects only.
pub open spec fn passengers_miss(items: Seq<JsonView>, entities: Seq<(&str, &str)>) -> Option<Seq<char>>
    decreases items.len(),
{
    if items.len() == 0 {
        None
    } else {
        first_some(
            if items[0] is Object {
                catalog_miss_spec("乘客实体类型"@, get_str(items[0], "entityType"@), entities)
            } else {
                None
            },
            passengers_miss(items.drop_first(), entities),
        )
    }
}

/// The first refusal among the container entries' items: the item id, then its
/// enchantments; entries without an item object are skipped.
pub open spec fn container_miss(items: Seq<JsonView>, item_rows: Seq<(&str, &str)>, enchants: Seq<(&str, &str)>) -> Option<
    Seq<char>,
>
    decreases items.len(),
{
    if items.len() == 0 {
        None
    } else {
        first_some(
            match jget(items[0], "item"@) {
                Some(it) => if it is Object {
                    first_some(
                        catalog_miss_spec("容器内物品"@, get_str(it, "id"@), item_rows),
                        list_miss("附魔"@, jget(it, "enchantments"@), enchants),
                    )
                } else {
                    None
                },
                None => None,
            },
            container_miss(items.drop_first(), item_rows, enchants),
        )
    }
}

pub(crate) fn passengers_catalog_miss(list: Option<&JsonValue>, entities: &Indexed) -> (r: Option<String>)
    ensures
        opt_text(r) == match list {
            Some(x) => match x@ {
                JsonView::Array(a) => passengers_miss(a, entities.rows@),
                _ => None,
            },
            None => None,
        },
{
    let a = match list {
        Some(x) => match x.as_array() {
            Some(a) => a,
            None => return None,
        },
        None => return None,
    };
    proof {
        lemma_views(a@);
    }
    let ghost s = views(a@);
    assert(s.subrange(0, s.len() as int) =~= s);
    let mut i: usize = 0;
    while i < a.len()
        invariant
            i <= a@.len(),
            s == views(a@),
            s.len() == a@.len(),
            forall|j: int| 0 <= j < a@.len() ==> #[trigger] s[j] == a@[j]@,
            passengers_miss(s, entities.rows@) == passengers_miss(s.subrange(i as int, s.len() as int), entities.rows@),
            match list {
                Some(x) => match x@ {
                    JsonView::Array(a) => passengers_miss(a, entities.rows@),
                    _ => None,
                },
                None => None,
            } == passengers_miss(s, entities.rows@),
        decreases a@.len() - i,
    {
        let p = &a[i];
        proof {
            let rest = s.subrange(i as int, s.len() as int);
            assert(rest[0] == p@);
            assert(rest.drop_first() =~= s.subrange(i + 1, s.len() as int));
            assert(passengers_miss(rest, entities.rows@) == first_some(
                if rest[0] is Object {
                    catalog_miss_spec("乘客实体类型"@, get_str(rest[0], "entityType"@), entities.rows@)
                } else {
                    None
                },
                passengers_miss(rest.drop_first(), entities.rows@),
            ));
        }
        if p.is_object() {
            let t = get_string(p, "entityType");
            let e = miss("乘客实体类型", &t, entities);
            if e.is_some() {
                return e;
            }
        }
        i = i + 1;
    }
    None
}

pub(crate) fn container_items_catalog_miss(list: Option<&JsonValue>, items: &Indexed, enchants: &Indexed) -> (r: Option<String>)
    ensures
        opt_text(r) == match list {
            Some(x) => match x@ {
                JsonView::Array(a) => container_miss(a, items.rows@, enchants.rows@),
                _ => None,
            },
            None => None,
        },
{
    let a = match list {
        Some(x) => match x.as_array() {
            Some(a) => a,
            None => return None,
        },
        None => return None,
    };
    proof {
        lemma_views(a@);
    }
    let ghost s = views(a@);
    assert(s.subrange(0, s.len() as int) =~= s);
    let mut i: usize = 0;
    while i < a.len()
        invariant
            i <= a@.len(),
            s == views(a@),
            s.len() == a@.len(),
            forall|j: int| 0 <= j < a@.len() ==> #[trigger] s[j] == a@[j]@,
            container_miss(s, items.rows@, enchants.rows@) == container_miss(
                s.subrange(i as int, s.len() as int),
                items.rows@,
                enchants.rows@,
            ),
            match list {
                Some(x) => match x@ {
                    JsonView::Array(a) => container_miss(a, items.rows@, enchants.rows@),
                    _ => None,
                },
                None => None,
            } == container_miss(s, items.rows@, enchants.rows@),
        decreases a@.len() - i,
    {
        let entry = &a[i];
        proof {
            let rest = s.subrange(i as int, s.len() as int);
            assert(rest[0] == entry@);
            assert(rest.drop_first() =~= s.subrange(i + 1, s.len() as int));
            assert(container_miss(rest, items.rows@, enchants.rows@) == first_some(
                match jget(rest[0], "item"@) {
                    Some(it) => if it is Object {
                        first_some(
                            catalog_miss_spec("容器内物品"@, get_str(it, "id"@), items.rows@),
                            list_miss("附魔"@, jget(it, "enchantments"@), enchants.rows@),
                        )
                    } else {
                        None
                    },
                    None => None,
                },
                container_miss(rest.drop_first(), items.rows@, enchants.rows@),
            ));
        }
        match entry.get("item") {
            Some(it) => {
                if it.is_object() {
                    let id = get_string(it, "id");
                    let e = miss("容器内物品", &id, items);
                    if e.is_some() {
                        return e;
                    }
                    let e2 = first_catalog_miss_in_list("附魔", it.get("enchantments"), enchants);
                    if e2.is_some() {
                        return e2;
                    }
                }
            },
            None => {},
        }
        i = i + 1;
    }
    None
}

/// The refusal of a `{block, blockstate?}` filter's block; none unless it is an object.
pub open spec fn filter_miss(kind: Seq<char>, filter: Option<JsonView>, blocks: Seq<(&str, &str)>) -> Option<Seq<char>> {
    match filter {
        Some(f) => if f is Object {
            catalog_miss_spec(kind, get_str(f, "block"@), blocks)
        } else {
            None
        },
        None => None,
    }
}

pub(crate) fn block_filter_catalog_miss(kind: &str, filter: Option<&JsonValue>, blocks: &Indexed) -> (r: Option<String>)
    ensures
        opt_text(r) == filter_miss(
            kind@,
            match filter {
                Some(x) => Some(x@),
                None => None,
            },
            blocks.rows@,
        ),
{
    match filter {
        Some(f) => if f.is_object() {
            let b = get_string(f, "block");
            miss(kind, &b, blocks)
        } else {
            None
        },
        None => None,
    }
}

/// The criteria prefixes followed by an item id (`minecraft.used:minecraft.stone`); the
/// others (`minecraft.custom:minecraft.jump`) are followed by a statistic, not an item.
pub const ITEM_BACKED_CRITERIA_PREFIXES: [&'static str; 6] = [
    "minecraft.used",
    "minecraft.mined",
    "minecraft.crafted",
    "minecraft.broken",
    "minecraft.picked_up",
    "minecraft.dropped",
];

/// `head` is one of the item-backed criteria prefixes.
pub open spec fn item_backed(head: Seq<char>) -> bool {
    exists|i: int| 0 <= i < 6 && head == (#[trigger] ITEM_BACKED_CRITERIA_PREFIXES@[i])@
}

/// `t` with its first `.` turned into `:` (`replacen('.', ":", 1)`).
pub open spec fn first_dot_to_colon(t: Seq<char>) -> Seq<char> {
    match index_of_char(t, '.') {
        Some(i) => t.subrange(0, i) + seq![':'] + t.subrange(i + 1, t.len() as int),
        None => t,
    }
}

/// The refusal of the item named by an item-backed criteria string
/// (`minecraft.used:minecraft.magic_wand`); none for other criteria.
pub open spec fn criteria_miss(criteria: Option<JsonView>, items: Seq<(&str, &str)>) -> Option<Seq<char>> {
    match criteria {
        Some(JsonView::String(c)) => match index_of_char(c, ':') {
            Some(colon) => if item_backed(c.subrange(0, colon)) {
                catalog_miss_spec(
                    "计分板判据里的物品"@,
                    Some(first_dot_to_colon(c.subrange(colon + 1, c.len() as int))),
                    items,
                )
            } else {
                None
            },
            None => None,
        },
        _ => None,
    }
}

fn is_item_backed(head: &str) -> (b: bool)
    ensures
        b == item_backed(head@),
{
    let mut i: usize = 0;
    while i < 6
        invariant
            i <= 6,
            forall|j: int| 0 <= j < i ==> head@ != (#[trigger] ITEM_BACKED_CRITERIA_PREFIXES@[j])@,
        decreases 6 - i,
    {
        if str_eq(head, ITEM_BACKED_CRITERIA_PREFIXES[i]) {
            return true;
        }
        i = i + 1;
    }
    false
}

fn tail_chars(v: &Vec<char>, from: usize) -> (t: Vec<char>)
    requires
        from <= v@.len(),
    ensures
        t@ == v@.subrange(from as int, v@.len() as int),
{
    let mut tail: Vec<char> = Vec::new();
    let mut k: usize = from;
    while k < v.len()
        invariant
            from <= k <= v@.len(),
            tail@ == v@.subrange(from as int, k as int),
        decreases v@.len() - k,
    {
        tail.push(v[k]);
        k = k + 1;
        assert(tail@ =~= v@.subrange(from as int, k as int));
    }
    tail
}

fn dot_to_colon(tail: &Vec<char>) -> (s: String)
    ensures
        s@ == first_dot_to_colon(tail@),
{
    let mut s = String::new();
    match find_char(tail, '.') {
        Some(i) => {
            assert(i < tail.len());
            push_range(&mut s, tail, 0, i);
            push_str(&mut s, ":");
            push_range(&mut s, tail, i + 1, tail.len());
            proof {
                reveal_strlit(":");
                assert(s@ =~= tail@.subrange(0, i as int) + seq![':'] + tail@.subrange(i + 1, tail@.len() as int));
            }
        },
        None => {
            push_range(&mut s, tail, 0, tail.len());
            assert(tail@.subrange(0, tail@.len() as int) =~= tail@);
        },
    }
    s
}

pub(crate) fn criteria_catalog_miss(criteria: Option<&JsonValue>, items: &Indexed) -> (r: Option<String>)
    ensures
        opt_text(r) == criteria_miss(
            match criteria {
                Some(x) => Some(x@),
                None => None,
            },
            items.rows@,
        ),
{
    let c = match criteria {
        Some(JsonValue::String(c)) => c,
        _ => return None,
    };
    let v = chars_of(c.as_str());
    let colon = match find_char(&v, ':') {
        Some(i) => i,
        None => return None,
    };
    let mut head = String::new();
    push_range(&mut head, &v, 0, colon);
    if !is_item_backed(head.as_str()) {
        return None;
    }
    assert(colon < v.len());
    let tail = tail_chars(&v, colon + 1);
    let id = dot_to_colon(&tail);
    assert(head@ =~= v@.subrange(0, colon as int));
    catalog_miss("计分板判据里的物品", Some(id.as_str()), items)
}

} // verus!
