//! Rich text: a line of text components, held as the loose JSON of the form, written as the
//! JSON text the game reads and shaped for the version (object components from 1.21.9,
//! snake-case click and hover events from 1.21.5, shadow colour arrays from 1.21.4; older
//! versions get camel-case events and a packed shadow colour integer).

use vstd::prelude::*;
use crate::give::builder::{
    json_quoted, quote, resolve_text_profile, snbt_escaped, snbt_json_string, text_profile_of, GiveVersion, TextProfile,
};
use crate::give::catalog::{namespaced, namespaced_spec};
use crate::give::commands::nbt::comma_joined;
use crate::give::json::{
    get_bool, get_bool_field, get_str, get_string, int_or, js_number, js_number_of, jget, lemma_jget_decreases,
    lemma_views, normalize_int, str_or_empty, string_or_empty, texts, truthy, truthy_spec, value_as_text, value_text,
    view_of, views, JsonValue, JsonView,
};
use crate::give::number::NumberText;
use crate::text::{i64_text, int_text, push_char, push_i64, push_str, str_eq, string_from};

verus! {

/// One line of rich text: its components, in order.
pub type RichLine = Vec<JsonValue>;

/// The warning for an object component (icon or player head) on a version before 1.21.9.
pub const OBJECT_WARNING: &'static str = "内嵌图标/头像（object 组件）需要 Java 1.21.9+，已忽略";

/// `"key":value`.
pub open spec fn member(k: Seq<char>, v: Seq<char>) -> Seq<char> {
    json_quoted(k) + seq![':'] + v
}

/// `{...}` around the members.
pub open spec fn obj_text(ms: Seq<Seq<char>>) -> Seq<char> {
    seq!['{'] + comma_joined(ms) + seq!['}']
}

/// `[...]` around the items.
pub open spec fn arr_text(xs: Seq<Seq<char>>) -> Seq<char> {
    seq!['['] + comma_joined(xs) + seq![']']
}

/// `true` or `false`.
pub open spec fn bool_text(b: bool) -> Seq<char> {
    if b {
        "true"@
    } else {
        "false"@
    }
}

/// A plain value as JSON: a boolean, a number in plain decimal, a string literal; anything else
/// is the empty string literal.
pub open spec fn leaf_text(v: JsonView) -> Seq<char> {
    match v {
        JsonView::Bool(b) => bool_text(b),
        JsonView::Number(d) => d.plain(),
        JsonView::String(s) => json_quoted(s),
        _ => json_quoted(seq![]),
    }
}

/// `n` copies of the object-component warning.
pub open spec fn warnings_of(n: nat) -> Seq<Seq<char>> {
    Seq::new(n, |i: int| OBJECT_WARNING@)
}

/// The colour byte of entry `i` of a shadow colour array (`round(x × 255) as i64 & 0xff`), with
/// 0 (or 255 for the alpha entry) when the entry is missing or not a number.
pub open spec fn channel_at(vs: Seq<JsonView>, i: int, alpha: bool) -> int {
    if 0 <= i < vs.len() {
        match js_number(vs[i]) {
            Some(NumberText::Finite(d)) => d.channel(),
            Some(NumberText::Infinite(neg)) => if neg {
                0
            } else {
                255
            },
            Some(NumberText::NotANumber) => 0,
            None => if alpha {
                255
            } else {
                0
            },
        }
    } else if alpha {
        255
    } else {
        0
    }
}

/// The ARGB shadow colour of `[r, g, b, a]` fractions as a signed 32-bit integer.
pub open spec fn packed_shadow(vs: Seq<JsonView>) -> int {
    let v = channel_at(vs, 3, true) * 16777216 + channel_at(vs, 0, false) * 65536 + channel_at(vs, 1, false) * 256
        + channel_at(vs, 2, false);
    if v >= 2147483648 {
        v - 4294967296
    } else {
        v
    }
}

/// A shadow colour: the array kept as it is from 1.21.4, packed into one integer before.
pub open spec fn shadow_text(v: JsonView, tp: TextProfile) -> Seq<char> {
    match v {
        JsonView::Array(vs) => if tp.supports_shadow_array {
            arr_text(Seq::new(vs.len(), |i: int| leaf_text(vs[i])))
        } else {
            int_text(packed_shadow(vs))
        },
        _ => leaf_text(v),
    }
}

/// The action-specific field of a click event from 1.21.5.
pub open spec fn click_extra(action: Seq<char>, val: Seq<char>, page: int) -> Seq<Seq<char>> {
    if action == "open_url"@ {
        seq![member("url"@, json_quoted(val))]
    } else if action == "run_command"@ || action == "suggest_command"@ {
        seq![member("command"@, json_quoted(val))]
    } else if action == "copy_to_clipboard"@ {
        seq![member("value"@, json_quoted(val))]
    } else if action == "change_page"@ {
        seq![member("page"@, int_text(page))]
    } else if action == "show_dialog"@ {
        seq![member("dialog"@, json_quoted(val))]
    } else {
        seq![]
    }
}

/// The click event member of a component: `click_event` with a field named by action from
/// 1.21.5, `clickEvent{action,value}` before (where `show_dialog` does not exist).
pub open spec fn click_spec(ev: JsonView, tp: TextProfile) -> Option<Seq<char>> {
    let action = str_or_empty(ev, "action"@);
    let val = str_or_empty(ev, "value"@);
    let page = int_or(JsonView::String(val), 1, 1);
    if action.len() == 0 {
        None
    } else if tp.event_format_modern {
        let extra = click_extra(action, val, page as int);
        Some(member("click_event"@, obj_text(seq![member("action"@, json_quoted(action))] + extra)))
    } else if action == "show_dialog"@ {
        None
    } else {
        let value = if action == "change_page"@ {
            int_text(page as int)
        } else {
            val
        };
        Some(
            member(
                "clickEvent"@,
                obj_text(seq![member("action"@, json_quoted(action)), member("value"@, json_quoted(value))]),
            ),
        )
    }
}

/// A string member when the string is there and not empty.
pub open spec fn nonempty_member(k: Seq<char>, s: Option<Seq<char>>) -> Seq<Seq<char>> {
    match s {
        Some(t) => if t.len() > 0 {
            seq![member(k, json_quoted(t))]
        } else {
            seq![]
        },
        None => seq![],
    }
}

/// The string when it is there and not empty, else the default.
pub open spec fn nonempty_or(s: Option<Seq<char>>, d: Seq<char>) -> Seq<char> {
    match s {
        Some(t) => if t.len() > 0 {
            t
        } else {
            d
        },
        None => d,
    }
}

/// A boolean member when the value has one.
pub open spec fn bool_member(run: JsonView, k: Seq<char>) -> Seq<Seq<char>> {
    match get_bool(run, k) {
        Some(b) => seq![member(k, bool_text(b))],
        None => seq![],
    }
}

/// A string member when the value has one.
pub open spec fn str_member(run: JsonView, k: Seq<char>) -> Seq<Seq<char>> {
    match get_str(run, k) {
        Some(s) => seq![member(k, json_quoted(s))],
        None => seq![],
    }
}

/// The JSON of the components of a line that survive, and the warnings raised.
pub open spec fn line_spec(items: Seq<JsonView>, tp: TextProfile) -> (Seq<Seq<char>>, nat)
    decreases items, 0nat,
{
    if items.len() == 0 {
        (seq![], 0)
    } else {
        let (xs, w1) = line_spec(items.drop_last(), tp);
        let (c, w2) = comp_spec(items.last(), tp);
        (
            match c {
                Some(j) => xs.push(j),
                None => xs,
            },
            w1 + w2,
        )
    }
}

/// A line given as a value: the JSON array of its components (empty when it is not an array).
pub open spec fn line_value_spec(v: JsonView, tp: TextProfile) -> (Seq<char>, nat)
    decreases v, 0nat,
{
    match v {
        JsonView::Array(items) => {
            let (xs, w) = line_spec(items, tp);
            (arr_text(xs), w)
        },
        _ => (arr_text(seq![]), 0),
    }
}

/// The value of a `show_text` hover event: its line as JSON, or the empty string literal.
pub open spec fn hover_text_val(ev: JsonView, tp: TextProfile) -> (Seq<char>, nat)
    decreases ev, 0nat,
{
    match jget(ev, "text"@) {
        Some(t) => if truthy_spec(t) {
            proof {
                lemma_jget_decreases(ev, "text"@);
            }
            line_value_spec(t, tp)
        } else {
            (json_quoted(seq![]), 0)
        },
        None => (json_quoted(seq![]), 0),
    }
}

/// The item fields of a `show_item` hover event: the namespaced id (`stone` by default) and the
/// count when there is one.
pub open spec fn hover_item_inner(ev: JsonView) -> Seq<Seq<char>> {
    seq![member("id"@, json_quoted(namespaced_spec(nonempty_or(get_str(ev, "itemId"@), "stone"@))))] + (
    match jget(ev, "itemCount"@) {
        Some(c) => if c is Null {
            Seq::<Seq<char>>::empty()
        } else {
            seq![member("count"@, leaf_text(c))]
        },
        None => Seq::<Seq<char>>::empty(),
    })
}

/// The entity fields of a `show_entity` hover event: the namespaced type (`pig` by default,
/// keyed `id` from 1.21.5 and `type` before), the UUID (keyed `uuid`, before `id`) and the
/// name line, each when there is one.
pub open spec fn hover_entity_inner(ev: JsonView, tp: TextProfile) -> (Seq<Seq<char>>, nat)
    decreases ev, 0nat,
{
    let modern = tp.event_format_modern;
    let et = json_quoted(namespaced_spec(nonempty_or(get_str(ev, "entityType"@), "pig"@)));
    let uuid = nonempty_member(
        if modern {
            "uuid"@
        } else {
            "id"@
        },
        get_str(ev, "entityUuid"@),
    );
    let (name, w) = match jget(ev, "entityName"@) {
        Some(n) => if truthy_spec(n) {
            proof {
                lemma_jget_decreases(ev, "entityName"@);
            }
            let (t, w) = line_value_spec(n, tp);
            (seq![member("name"@, t)], w)
        } else {
            (Seq::<Seq<char>>::empty(), 0nat)
        },
        None => (Seq::<Seq<char>>::empty(), 0nat),
    };
    (
        seq![
            member(
                if modern {
                    "id"@
                } else {
                    "type"@
                },
                et,
            ),
        ] + uuid + name,
        w,
    )
}

/// The fields of a hover event after its action: directly from 1.21.5, inside `contents` before.
pub open spec fn hover_fields(head: Seq<char>, inner: Seq<Seq<char>>, modern: bool) -> Seq<Seq<char>> {
    if modern {
        seq![head] + inner
    } else {
        seq![head, member("contents"@, obj_text(inner))]
    }
}

/// The hover event member of a component: `hover_event` with `value` or `id`/`uuid` fields
/// from 1.21.5, `hoverEvent` with `contents` before.
pub open spec fn hover_spec(ev: JsonView, tp: TextProfile) -> (Option<Seq<char>>, nat)
    decreases ev, 1nat,
{
    let action = str_or_empty(ev, "action"@);
    let modern = tp.event_format_modern;
    let key = if modern {
        "hover_event"@
    } else {
        "hoverEvent"@
    };
    let head = member("action"@, json_quoted(action));
    if action.len() == 0 {
        (None, 0)
    } else if action == "show_text"@ {
        let (val, w) = hover_text_val(ev, tp);
        let field = if modern {
            "value"@
        } else {
            "contents"@
        };
        (Some(member(key, obj_text(seq![head, member(field, val)]))), w)
    } else if action == "show_item"@ {
        (Some(member(key, obj_text(hover_fields(head, hover_item_inner(ev), modern)))), 0)
    } else if action == "show_entity"@ {
        let (inner, w) = hover_entity_inner(ev, tp);
        (Some(member(key, obj_text(hover_fields(head, inner, modern)))), w)
    } else {
        (Some(member(key, obj_text(seq![head]))), 0)
    }
}

/// The style members of a component, in order: the five format flags, colour, font, shadow
/// colour, insertion, click event and hover event.
pub open spec fn style_spec(run: JsonView, tp: TextProfile) -> (Seq<Seq<char>>, nat)
    decreases run, 1nat,
{
    let flags = bool_member(run, "bold"@) + bool_member(run, "italic"@) + bool_member(run, "underlined"@) + bool_member(
        run,
        "strikethrough"@,
    ) + bool_member(run, "obfuscated"@);
    let shadow: Seq<Seq<char>> = match jget(run, "shadow_color"@) {
        Some(v) => if v is Null {
            seq![]
        } else {
            seq![member("shadow_color"@, shadow_text(v, tp))]
        },
        None => seq![],
    };
    let click: Seq<Seq<char>> = match jget(run, "click_event"@) {
        Some(ce) => if truthy_spec(ce) {
            match click_spec(ce, tp) {
                Some(m) => seq![m],
                None => seq![],
            }
        } else {
            seq![]
        },
        None => seq![],
    };
    let (hover, w): (Seq<Seq<char>>, nat) = match jget(run, "hover_event"@) {
        Some(he) => if truthy_spec(he) {
            proof {
                lemma_jget_decreases(run, "hover_event"@);
            }
            let (h, w) = hover_spec(he, tp);
            (
                match h {
                    Some(m) => seq![m],
                    None => seq![],
                },
                w,
            )
        } else {
            (seq![], 0)
        },
        None => (seq![], 0),
    };
    (flags + str_member(run, "color"@) + str_member(run, "font"@) + shadow + str_member(run, "insertion"@) + click + hover, w)
}

/// The `type` of a component (`text` when absent).
pub open spec fn type_of(run: JsonView) -> Seq<char> {
    match get_str(run, "type"@) {
        Some(t) => t,
        None => "text"@,
    }
}

/// The separator member of a selector or NBT component.
pub open spec fn separator_spec(run: JsonView, tp: TextProfile) -> (Seq<Seq<char>>, nat)
    decreases run, 0nat,
{
    match jget(run, "separator"@) {
        Some(sep) => if truthy_spec(sep) {
            proof {
                lemma_jget_decreases(run, "separator"@);
            }
            let (c, w) = comp_spec(sep, tp);
            (
                match c {
                    Some(j) => seq![member("separator"@, j)],
                    None => seq![],
                },
                w,
            )
        } else {
            (seq![], 0)
        },
        None => (seq![], 0),
    }
}

/// The members of a translatable component: type, key, fallback and arguments when present.
pub open spec fn translatable_spec(run: JsonView, tp: TextProfile) -> (Seq<Seq<char>>, nat)
    decreases run, 0nat,
{
    let fb: Seq<Seq<char>> = match jget(run, "fallback"@) {
        Some(f) => if f is Null {
            seq![]
        } else {
            seq![member("fallback"@, leaf_text(f))]
        },
        None => seq![],
    };
    let (with, w): (Seq<Seq<char>>, nat) = match jget(run, "with"@) {
        Some(x) => match x {
            JsonView::Array(items) => if items.len() > 0 {
                proof {
                    lemma_jget_decreases(run, "with"@);
                    assert(decreases_to!(x => items));
                }
                let (xs, w) = line_spec(items, tp);
                (seq![member("with"@, arr_text(xs))], w)
            } else {
                (seq![], 0)
            },
            _ => (seq![], 0),
        },
        None => (seq![], 0),
    };
    (
        seq![
            member("type"@, json_quoted("translatable"@)),
            member("translate"@, json_quoted(str_or_empty(run, "translate"@))),
        ] + fb + with,
        w,
    )
}

/// The members of an object component: a player head or an atlas sprite.
pub open spec fn object_members(run: JsonView) -> Seq<Seq<char>> {
    if get_str(run, "object"@) == Some("player"@) {
        seq![
            member("type"@, json_quoted("object"@)),
            member("object"@, json_quoted("player"@)),
            member("player"@, json_quoted(str_or_empty(run, "player"@))),
        ] + bool_member(run, "hat"@)
    } else {
        seq![
            member("type"@, json_quoted("object"@)),
            member("object"@, json_quoted("atlas"@)),
            member("atlas"@, json_quoted(nonempty_or(get_str(run, "atlas"@), "minecraft:blocks"@))),
            member("sprite"@, json_quoted(str_or_empty(run, "sprite"@))),
        ]
    }
}

/// The member of a score component.
pub open spec fn score_members(run: JsonView) -> Seq<Seq<char>> {
    let (name, objective) = match jget(run, "score"@) {
        Some(s) => (str_or_empty(s, "name"@), str_or_empty(s, "objective"@)),
        None => (seq![], seq![]),
    };
    seq![member("score"@, obj_text(seq![member("name"@, json_quoted(name)), member("objective"@, json_quoted(objective))]))]
}

/// The source of an NBT component (`block` by default).
pub open spec fn nbt_source(run: JsonView) -> Seq<char> {
    match get_str(run, "source"@) {
        Some(s) => s,
        None => "block"@,
    }
}

/// The members of an NBT component before its separator: path, source, the source's target
/// when present, and `interpret`.
pub open spec fn nbt_members(run: JsonView) -> Seq<Seq<char>> {
    let source = nbt_source(run);
    let block = if source == "block"@ {
        nonempty_member("block"@, get_str(run, "block"@))
    } else {
        seq![]
    };
    let entity = if source == "entity"@ {
        nonempty_member("entity"@, get_str(run, "entity"@))
    } else {
        seq![]
    };
    let storage: Seq<Seq<char>> = if source == "storage"@ {
        match get_str(run, "storage"@) {
            Some(s) => if s.len() > 0 {
                seq![member("storage"@, json_quoted(namespaced_spec(s)))]
            } else {
                seq![]
            },
            None => seq![],
        }
    } else {
        seq![]
    };
    seq![member("nbt"@, json_quoted(str_or_empty(run, "nbt"@))), member("source"@, json_quoted(source))] + block + entity
        + storage + bool_member(run, "interpret"@)
}

/// The content members of a component, by its type.
pub open spec fn body_spec(run: JsonView, tp: TextProfile) -> (Seq<Seq<char>>, nat)
    decreases run, 1nat,
{
    let ty = type_of(run);
    if ty == "translatable"@ {
        translatable_spec(run, tp)
    } else if ty == "object"@ {
        (object_members(run), 0)
    } else if ty == "keybind"@ {
        (seq![member("keybind"@, json_quoted(str_or_empty(run, "keybind"@)))], 0)
    } else if ty == "selector"@ {
        let (sep, w) = separator_spec(run, tp);
        (seq![member("selector"@, json_quoted(str_or_empty(run, "selector"@)))] + sep, w)
    } else if ty == "score"@ {
        (score_members(run), 0)
    } else if ty == "nbt"@ {
        let (sep, w) = separator_spec(run, tp);
        (nbt_members(run) + sep, w)
    } else {
        (seq![member("text"@, json_quoted(value_text(jget(run, "text"@))))], 0)
    }
}

/// A component as a JSON object (content, then style), or `None` when it is not an object or
/// is an object component on a version without them (which raises a warning).
pub open spec fn comp_spec(run: JsonView, tp: TextProfile) -> (Option<Seq<char>>, nat)
    decreases run, 2nat,
{
    if !(run is Object) {
        (None, 0)
    } else if type_of(run) == "object"@ && !tp.supports_object_component {
        (None, 1)
    } else {
        let (b, w1) = body_spec(run, tp);
        let (st, w2) = style_spec(run, tp);
        (Some(obj_text(b + st)), w1 + w2)
    }
}

/// A line as JSON, as a single-quoted SNBT string when asked.
pub open spec fn text_spec(line: Seq<JsonView>, as_snbt: bool, tp: TextProfile) -> (Seq<char>, nat) {
    let (xs, w) = line_spec(line, tp);
    let j = arr_text(xs);
    (
        if as_snbt {
            seq!['\''] + snbt_escaped(j) + seq!['\'']
        } else {
            j
        },
        w,
    )
}

/// The text of an optional string.
pub open spec fn opt_text(r: Option<String>) -> Option<Seq<char>> {
    match r {
        Some(s) => Some(s@),
        None => None,
    }
}

/// Warnings counted in two runs add up.
pub proof fn lemma_warnings_add(a: nat, b: nat)
    ensures
        warnings_of(a) + warnings_of(b) == warnings_of(a + b),
{
    assert(warnings_of(a) + warnings_of(b) =~= warnings_of(a + b));
}

/// Appends one text.
pub fn push_text(ms: &mut Vec<String>, m: String)
    ensures
        texts(final(ms)@) == texts(old(ms)@).push(m@),
{
    ms.push(m);
    assert(texts(ms@) =~= texts(old(ms)@).push(m@));
}

/// Appends all the texts of `more`.
pub fn append_texts(ms: &mut Vec<String>, more: Vec<String>)
    ensures
        texts(final(ms)@) == texts(old(ms)@) + texts(more@),
{
    let ghost m0 = more@;
    let n = more.len();
    let mut i: usize = 0;
    let ghost start = texts(ms@);
    while i < n
        invariant
            n == m0.len(),
            i <= n,
            more@ == m0,
            texts(ms@) == start + texts(m0.subrange(0, i as int)),
        decreases n - i,
    {
        let t = string_from(more[i].as_str());
        push_text(ms, t);
        proof {
            assert(texts(m0.subrange(0, i + 1)) =~= texts(m0.subrange(0, i as int)).push(m0[i as int]@));
        }
        i = i + 1;
    }
    proof {
        assert(m0.subrange(0, n as int) =~= m0);
    }
}

/// The texts joined by commas.
pub fn join_texts(parts: &Vec<String>) -> (s: String)
    ensures
        s@ == comma_joined(texts(parts@)),
{
    let mut s = String::new();
    let n = parts.len();
    if n == 0 {
        assert(texts(parts@) =~= Seq::<Seq<char>>::empty());
        return s;
    }
    push_str(&mut s, parts[0].as_str());
    assert(texts(parts@).subrange(0, 1) =~= seq![parts@[0]@]);
    let mut i: usize = 1;
    while i < n
        invariant
            1 <= i <= n,
            n == parts@.len(),
            s@ == comma_joined(texts(parts@).subrange(0, i as int)),
        decreases n - i,
    {
        push_str(&mut s, ",");
        push_str(&mut s, parts[i].as_str());
        proof {
            let sub = texts(parts@).subrange(0, i + 1);
            assert(sub.drop_last() =~= texts(parts@).subrange(0, i as int));
            assert(sub.last() == parts@[i as int]@);
        }
        i = i + 1;
    }
    assert(texts(parts@).subrange(0, n as int) =~= texts(parts@));
    s
}

/// `{...}` around the members.
pub fn obj_of(ms: &Vec<String>) -> (s: String)
    ensures
        s@ == obj_text(texts(ms@)),
{
    let mut s = String::new();
    push_char(&mut s, '{');
    let j = join_texts(ms);
    push_str(&mut s, j.as_str());
    push_char(&mut s, '}');
    assert(s@ =~= obj_text(texts(ms@)));
    s
}

/// `[...]` around the items.
pub fn arr_of(xs: &Vec<String>) -> (s: String)
    ensures
        s@ == arr_text(texts(xs@)),
{
    let mut s = String::new();
    push_char(&mut s, '[');
    let j = join_texts(xs);
    push_str(&mut s, j.as_str());
    push_char(&mut s, ']');
    assert(s@ =~= arr_text(texts(xs@)));
    s
}

/// `"key":value`.
pub fn member_of(k: &str, v: &str) -> (s: String)
    ensures
        s@ == member(k@, v@),
{
    let mut s = quote(k);
    push_char(&mut s, ':');
    push_str(&mut s, v);
    assert(s@ =~= member(k@, v@));
    s
}

/// `"key":"string"`.
pub fn str_member_of(k: &str, v: &str) -> (s: String)
    ensures
        s@ == member(k@, json_quoted(v@)),
{
    let q = quote(v);
    member_of(k, q.as_str())
}

fn bool_json(b: bool) -> (s: String)
    ensures
        s@ == bool_text(b),
{
    let mut s = String::new();
    if b {
        push_str(&mut s, "true");
    } else {
        push_str(&mut s, "false");
    }
    s
}

/// A plain value as JSON.
fn leaf_json(v: &JsonValue) -> (s: String)
    ensures
        s@ == leaf_text(v@),
{
    match v {
        JsonValue::Bool(b) => bool_json(*b),
        JsonValue::Number(d) => d.plain_text(),
        JsonValue::String(t) => quote(t.as_str()),
        _ => {
            let r = quote("");
            proof {
                reveal_strlit("");
                assert(""@ =~= Seq::<char>::empty());
            }
            r
        },
    }
}

fn push_warning(warnings: &mut Vec<String>)
    ensures
        texts(final(warnings)@) == texts(old(warnings)@) + warnings_of(1),
{
    warnings.push(string_from(OBJECT_WARNING));
    assert(texts(warnings@) =~= texts(old(warnings)@) + warnings_of(1));
}

/// The colour byte of entry `i` of a shadow colour array.
fn channel_of(vs: &Vec<JsonValue>, i: usize, alpha: bool) -> (c: u8)
    ensures
        c as int == channel_at(views(vs@), i as int, alpha),
{
    proof {
        lemma_views(vs@);
    }
    if i < vs.len() {
        match js_number_of(&vs[i]) {
            Some(NumberText::Finite(d)) => d.channel_byte(),
            Some(NumberText::Infinite(neg)) => if neg {
                0
            } else {
                255
            },
            Some(NumberText::NotANumber) => 0,
            None => if alpha {
                255
            } else {
                0
            },
        }
    } else if alpha {
        255
    } else {
        0
    }
}

/// A shadow colour as JSON.
fn shadow_json(v: &JsonValue, tp: &TextProfile) -> (s: String)
    ensures
        s@ == shadow_text(v@, *tp),
{
    match v {
        JsonValue::Array(vs) => {
            proof {
                lemma_views(vs@);
            }
            if tp.supports_shadow_array {
                let mut xs: Vec<String> = Vec::new();
                let mut i: usize = 0;
                while i < vs.len()
                    invariant
                        i <= vs@.len(),
                        views(vs@).len() == vs@.len(),
                        forall|j: int| 0 <= j < vs@.len() ==> #[trigger] views(vs@)[j] == view_of(vs@[j]),
                        texts(xs@) == Seq::new(i as nat, |j: int| leaf_text(views(vs@)[j])),
                    decreases vs@.len() - i,
                {
                    let t = leaf_json(&vs[i]);
                    push_text(&mut xs, t);
                    i = i + 1;
                    assert(texts(xs@) =~= Seq::new(i as nat, |j: int| leaf_text(views(vs@)[j])));
                }
                let r = arr_of(&xs);
                assert(texts(xs@) =~= Seq::new(views(vs@).len(), |j: int| leaf_text(views(vs@)[j])));
                r
            } else {
                let r = channel_of(vs, 0, false) as i64;
                let g = channel_of(vs, 1, false) as i64;
                let b = channel_of(vs, 2, false) as i64;
                let a = channel_of(vs, 3, true) as i64;
                let packed: i64 = a * 16777216 + r * 65536 + g * 256 + b;
                let signed: i64 = if packed >= 2147483648 {
                    packed - 4294967296
                } else {
                    packed
                };
                let mut s = String::new();
                push_i64(&mut s, signed);
                s
            }
        },
        _ => leaf_json(v),
    }
}

fn click_extra_members(a: &str, val: &str) -> (ms: Vec<String>)
    ensures
        texts(ms@) == click_extra(a@, val@, int_or(JsonView::String(val@), 1, 1) as int),
{
    let mut ms: Vec<String> = Vec::new();
    if str_eq(a, "open_url") {
        push_text(&mut ms, str_member_of("url", val));
    } else if str_eq(a, "run_command") || str_eq(a, "suggest_command") {
        push_text(&mut ms, str_member_of("command", val));
    } else if str_eq(a, "copy_to_clipboard") {
        push_text(&mut ms, str_member_of("value", val));
    } else if str_eq(a, "change_page") {
        let page = normalize_int(&JsonValue::String(string_from(val)), 1, 1);
        let t = i64_text(page);
        push_text(&mut ms, member_of("page", t.as_str()));
    } else if str_eq(a, "show_dialog") {
        push_text(&mut ms, str_member_of("dialog", val));
    }
    assert(texts(ms@) =~= click_extra(a@, val@, int_or(JsonView::String(val@), 1, 1) as int));
    ms
}

/// The click event member of a component.
fn click_member(ev: &JsonValue, tp: &TextProfile) -> (r: Option<String>)
    ensures
        opt_text(r) == click_spec(ev@, *tp),
{
    let action = string_or_empty(ev, "action");
    let val = string_or_empty(ev, "value");
    if action.unicode_len() == 0 {
        return None;
    }
    let a = action.as_str();
    let mut ms: Vec<String> = Vec::new();
    push_text(&mut ms, str_member_of("action", a));
    if tp.event_format_modern {
        let extra = click_extra_members(a, val.as_str());
        append_texts(&mut ms, extra);
        assert(texts(ms@) =~= seq![member("action"@, json_quoted(a@))] + click_extra(
            a@,
            val@,
            int_or(JsonView::String(val@), 1, 1) as int,
        ));
        let o = obj_of(&ms);
        Some(member_of("click_event", o.as_str()))
    } else if str_eq(a, "show_dialog") {
        None
    } else {
        let value = if str_eq(a, "change_page") {
            let page = normalize_int(&JsonValue::String(string_from(val.as_str())), 1, 1);
            i64_text(page)
        } else {
            string_from(val.as_str())
        };
        push_text(&mut ms, str_member_of("value", value.as_str()));
        let o = obj_of(&ms);
        assert(texts(ms@) =~= seq![member("action"@, json_quoted(a@)), member("value"@, json_quoted(value@))]);
        Some(member_of("clickEvent", o.as_str()))
    }
}

/// The JSON of the components of a line that survive.
fn line_items(items: &Vec<JsonValue>, tp: &TextProfile, warnings: &mut Vec<String>) -> (xs: Vec<String>)
    ensures
        texts(xs@) == line_spec(views(items@), *tp).0,
        texts(final(warnings)@) == texts(old(warnings)@) + warnings_of(line_spec(views(items@), *tp).1),
    decreases items, 0nat,
{
    proof {
        lemma_views(items@);
    }
    let ghost vs = views(items@);
    let mut xs: Vec<String> = Vec::new();
    let mut i: usize = 0;
    assert(vs.subrange(0, 0) =~= Seq::<JsonView>::empty());
    assert(texts(old(warnings)@) + warnings_of(0) =~= texts(old(warnings)@));
    while i < items.len()
        invariant
            i <= items@.len(),
            vs == views(items@),
            vs.len() == items@.len(),
            forall|j: int| 0 <= j < items@.len() ==> #[trigger] vs[j] == view_of(items@[j]),
            texts(xs@) == line_spec(vs.subrange(0, i as int), *tp).0,
            texts(warnings@) == texts(old(warnings)@) + warnings_of(line_spec(vs.subrange(0, i as int), *tp).1),
        decreases items@.len() - i,
    {
        proof {
            assert(decreases_to!(items => items@[i as int]));
        }
        let ghost before = texts(warnings@);
        let c = component_to_json(&items[i], tp, warnings);
        proof {
            let sub = vs.subrange(0, i + 1);
            assert(sub.drop_last() =~= vs.subrange(0, i as int));
            assert(sub.last() == view_of(items@[i as int]));
            lemma_warnings_add(line_spec(vs.subrange(0, i as int), *tp).1, comp_spec(view_of(items@[i as int]), *tp).1);
        }
        match c {
            Some(j) => push_text(&mut xs, j),
            None => {},
        }
        i = i + 1;
    }
    assert(vs.subrange(0, items@.len() as int) =~= vs);
    xs
}

/// A line given as a value, as a JSON array.
fn line_value_json(v: &JsonValue, tp: &TextProfile, warnings: &mut Vec<String>) -> (s: String)
    ensures
        s@ == line_value_spec(v@, *tp).0,
        texts(final(warnings)@) == texts(old(warnings)@) + warnings_of(line_value_spec(v@, *tp).1),
    decreases v, 0nat,
{
    match v.as_array() {
        Some(items) => {
            let xs = line_items(items, tp, warnings);
            arr_of(&xs)
        },
        None => {
            let xs: Vec<String> = Vec::new();
            let r = arr_of(&xs);
            assert(texts(xs@) =~= Seq::<Seq<char>>::empty());
            assert(texts(warnings@) =~= texts(old(warnings)@) + warnings_of(0));
            r
        },
    }
}

/// The value of a `show_text` hover event.
fn hover_text_value(ev: &JsonValue, tp: &TextProfile, warnings: &mut Vec<String>) -> (s: String)
    ensures
        s@ == hover_text_val(ev@, *tp).0,
        texts(final(warnings)@) == texts(old(warnings)@) + warnings_of(hover_text_val(ev@, *tp).1),
    decreases ev, 0nat,
{
    proof {
        reveal_strlit("");
        assert(""@ =~= Seq::<char>::empty());
        assert(texts(warnings@) =~= texts(old(warnings)@) + warnings_of(0));
    }
    match ev.get("text") {
        Some(t) => if truthy(t) {
            line_value_json(t, tp, warnings)
        } else {
            quote("")
        },
        None => quote(""),
    }
}

/// The item fields of a `show_item` hover event.
fn hover_item_members(ev: &JsonValue) -> (ms: Vec<String>)
    ensures
        texts(ms@) == hover_item_inner(ev@),
{
    let id_raw = match get_string(ev, "itemId") {
        Some(t) => if t.unicode_len() > 0 {
            t
        } else {
            string_from("stone")
        },
        None => string_from("stone"),
    };
    let id = quote(namespaced(id_raw.as_str()).as_str());
    let mut inner: Vec<String> = Vec::new();
    push_text(&mut inner, member_of("id", id.as_str()));
    match ev.get("itemCount") {
        Some(c) => if !c.is_null() {
            let l = leaf_json(c);
            push_text(&mut inner, member_of("count", l.as_str()));
        },
        None => {},
    }
    assert(texts(inner@) =~= hover_item_inner(ev@));
    inner
}

/// The entity fields of a `show_entity` hover event.
fn hover_entity_members(ev: &JsonValue, tp: &TextProfile, warnings: &mut Vec<String>) -> (ms: Vec<String>)
    ensures
        texts(ms@) == hover_entity_inner(ev@, *tp).0,
        texts(final(warnings)@) == texts(old(warnings)@) + warnings_of(hover_entity_inner(ev@, *tp).1),
    decreases ev, 0nat,
{
    let modern = tp.event_format_modern;
    let et_raw = match get_string(ev, "entityType") {
        Some(t) => if t.unicode_len() > 0 {
            t
        } else {
            string_from("pig")
        },
        None => string_from("pig"),
    };
    let et = quote(namespaced(et_raw.as_str()).as_str());
    let mut inner: Vec<String> = Vec::new();
    push_text(&mut inner, member_of(if modern { "id" } else { "type" }, et.as_str()));
    let uid = get_string(ev, "entityUuid");
    push_nonempty_member(&mut inner, if modern { "uuid" } else { "id" }, uid);
    let ghost before = texts(inner@);
    assert(texts(warnings@) =~= texts(old(warnings)@) + warnings_of(0));
    match ev.get("entityName") {
        Some(n) => if truthy(n) {
            let t = line_value_json(n, tp, warnings);
            push_text(&mut inner, member_of("name", t.as_str()));
        },
        None => {},
    }
    assert(texts(inner@) =~= hover_entity_inner(ev@, *tp).0);
    inner
}

/// The fields of a hover event after its action.
fn push_hover_fields(ms: &mut Vec<String>, inner: Vec<String>, modern: bool)
    ensures
        texts(final(ms)@) == texts(old(ms)@) + (if modern {
            texts(inner@)
        } else {
            seq![member("contents"@, obj_text(texts(inner@)))]
        }),
{
    if modern {
        append_texts(ms, inner);
    } else {
        let o = obj_of(&inner);
        push_text(ms, member_of("contents", o.as_str()));
        assert(texts(ms@) =~= texts(old(ms)@) + seq![member("contents"@, obj_text(texts(inner@)))]);
    }
}

/// A hover event member with its action and fields.
fn hover_wrap(a: &str, fields: Vec<String>, modern: bool) -> (s: String)
    ensures
        s@ == member(
            if modern {
                "hover_event"@
            } else {
                "hoverEvent"@
            },
            obj_text(seq![member("action"@, json_quoted(a@))] + texts(fields@)),
        ),
{
    let key = if modern { "hover_event" } else { "hoverEvent" };
    let ghost ft = texts(fields@);
    let mut ms: Vec<String> = Vec::new();
    push_text(&mut ms, str_member_of("action", a));
    append_texts(&mut ms, fields);
    assert(texts(ms@) =~= seq![member("action"@, json_quoted(a@))] + ft);
    let o = obj_of(&ms);
    member_of(key, o.as_str())
}

/// The fields of a hover event after its action, as a vector.
fn hover_field_vec(inner: Vec<String>, modern: bool) -> (v: Vec<String>)
    ensures
        texts(v@) == if modern {
            texts(inner@)
        } else {
            seq![member("contents"@, obj_text(texts(inner@)))]
        },
{
    let mut v: Vec<String> = Vec::new();
    push_hover_fields(&mut v, inner, modern);
    assert(texts(v@) =~= if modern {
        texts(inner@)
    } else {
        seq![member("contents"@, obj_text(texts(inner@)))]
    });
    v
}

proof fn lemma_hover_fields(head: Seq<char>, inner: Seq<Seq<char>>, modern: bool)
    ensures
        hover_fields(head, inner, modern) == seq![head] + if modern {
            inner
        } else {
            seq![member("contents"@, obj_text(inner))]
        },
{
    assert(hover_fields(head, inner, modern) =~= seq![head] + if modern {
        inner
    } else {
        seq![member("contents"@, obj_text(inner))]
    });
}

/// The hover event member of a component.
fn hover_member(ev: &JsonValue, tp: &TextProfile, warnings: &mut Vec<String>) -> (r: Option<String>)
    ensures
        opt_text(r) == hover_spec(ev@, *tp).0,
        texts(final(warnings)@) == texts(old(warnings)@) + warnings_of(hover_spec(ev@, *tp).1),
    decreases ev, 1nat,
{
    let action = string_or_empty(ev, "action");
    assert(texts(warnings@) =~= texts(old(warnings)@) + warnings_of(0));
    if action.unicode_len() == 0 {
        return None;
    }
    let a = action.as_str();
    let modern = tp.event_format_modern;
    let ghost head = member("action"@, json_quoted(a@));
    if str_eq(a, "show_text") {
        let val = hover_text_value(ev, tp, warnings);
        let field = if modern { "value" } else { "contents" };
        let mut fs: Vec<String> = Vec::new();
        push_text(&mut fs, member_of(field, val.as_str()));
        assert(seq![head] + texts(fs@) =~= seq![head, member(field@, val@)]);
        Some(hover_wrap(a, fs, modern))
    } else if str_eq(a, "show_item") {
        let inner = hover_item_members(ev);
        let fs = hover_field_vec(inner, modern);
        proof {
            lemma_hover_fields(head, hover_item_inner(ev@), modern);
        }
        Some(hover_wrap(a, fs, modern))
    } else if str_eq(a, "show_entity") {
        let inner = hover_entity_members(ev, tp, warnings);
        let fs = hover_field_vec(inner, modern);
        proof {
            lemma_hover_fields(head, hover_entity_inner(ev@, *tp).0, modern);
        }
        Some(hover_wrap(a, fs, modern))
    } else {
        let fs: Vec<String> = Vec::new();
        assert(seq![head] + texts(fs@) =~= seq![head]);
        Some(hover_wrap(a, fs, modern))
    }
}

/// Appends the boolean member `k` of `run`, if it has one.
fn push_bool_member(ms: &mut Vec<String>, run: &JsonValue, k: &str)
    ensures
        texts(final(ms)@) == texts(old(ms)@) + bool_member(run@, k@),
{
    match get_bool_field(run, k) {
        Some(b) => {
            let t = bool_json(b);
            push_text(ms, member_of(k, t.as_str()));
            assert(texts(ms@) =~= texts(old(ms)@) + bool_member(run@, k@));
        },
        None => {
            assert(texts(ms@) =~= texts(old(ms)@) + bool_member(run@, k@));
        },
    }
}

/// Appends the string member `k` of `run`, if it has one.
fn push_str_member(ms: &mut Vec<String>, run: &JsonValue, k: &str)
    ensures
        texts(final(ms)@) == texts(old(ms)@) + str_member(run@, k@),
{
    match get_string(run, k) {
        Some(t) => {
            push_text(ms, str_member_of(k, t.as_str()));
            assert(texts(ms@) =~= texts(old(ms)@) + str_member(run@, k@));
        },
        None => {
            assert(texts(ms@) =~= texts(old(ms)@) + str_member(run@, k@));
        },
    }
}

/// Appends the member `k` with a non-empty string, if there is one.
fn push_nonempty_member(ms: &mut Vec<String>, k: &str, s: Option<String>)
    ensures
        texts(final(ms)@) == texts(old(ms)@) + nonempty_member(k@, opt_text(s)),
{
    match s {
        Some(t) => if t.unicode_len() > 0 {
            push_text(ms, str_member_of(k, t.as_str()));
            assert(texts(ms@) =~= texts(old(ms)@) + nonempty_member(k@, opt_text(Some(t))));
        } else {
            assert(texts(ms@) =~= texts(old(ms)@) + nonempty_member(k@, opt_text(Some(t))));
        },
        None => {
            assert(texts(ms@) =~= texts(old(ms)@) + nonempty_member(k@, opt_text(s)));
        },
    }
}

/// The style members of a component.
fn style_members(run: &JsonValue, tp: &TextProfile, warnings: &mut Vec<String>) -> (ms: Vec<String>)
    ensures
        texts(ms@) == style_spec(run@, *tp).0,
        texts(final(warnings)@) == texts(old(warnings)@) + warnings_of(style_spec(run@, *tp).1),
    decreases run, 2nat,
{
    let mut ms: Vec<String> = Vec::new();
    let ghost v = run@;
    assert(texts(ms@) =~= Seq::<Seq<char>>::empty());
    push_bool_member(&mut ms, run, "bold");
    push_bool_member(&mut ms, run, "italic");
    push_bool_member(&mut ms, run, "underlined");
    push_bool_member(&mut ms, run, "strikethrough");
    push_bool_member(&mut ms, run, "obfuscated");
    push_str_member(&mut ms, run, "color");
    push_str_member(&mut ms, run, "font");
    let ghost before_shadow = texts(ms@);
    match run.get("shadow_color") {
        Some(x) => if !x.is_null() {
            let t = shadow_json(x, tp);
            push_text(&mut ms, member_of("shadow_color", t.as_str()));
        },
        None => {},
    }
    push_str_member(&mut ms, run, "insertion");
    let ghost before_click = texts(ms@);
    match run.get("click_event") {
        Some(ce) => if truthy(ce) {
            match click_member(ce, tp) {
                Some(m) => push_text(&mut ms, m),
                None => {},
            }
        },
        None => {},
    }
    let ghost before_hover = texts(ms@);
    assert(texts(warnings@) =~= texts(old(warnings)@) + warnings_of(0));
    match run.get("hover_event") {
        Some(he) => if truthy(he) {
            match hover_member(he, tp, warnings) {
                Some(m) => push_text(&mut ms, m),
                None => {},
            }
        },
        None => {},
    }
    assert(texts(ms@) =~= style_spec(v, *tp).0);
    ms
}

/// The separator member of a selector or NBT component.
fn separator_members(run: &JsonValue, tp: &TextProfile, warnings: &mut Vec<String>) -> (ms: Vec<String>)
    ensures
        texts(ms@) == separator_spec(run@, *tp).0,
        texts(final(warnings)@) == texts(old(warnings)@) + warnings_of(separator_spec(run@, *tp).1),
    decreases run, 0nat,
{
    let mut ms: Vec<String> = Vec::new();
    assert(texts(ms@) =~= Seq::<Seq<char>>::empty());
    assert(texts(warnings@) =~= texts(old(warnings)@) + warnings_of(0));
    match run.get("separator") {
        Some(sep) => if truthy(sep) {
            match component_to_json(sep, tp, warnings) {
                Some(j) => {
                    push_text(&mut ms, member_of("separator", j.as_str()));
                    assert(texts(ms@) =~= seq![member("separator"@, j@)]);
                },
                None => {},
            }
        },
        None => {},
    }
    ms
}

/// The `type` of a component.
fn component_type(run: &JsonValue) -> (t: String)
    ensures
        t@ == type_of(run@),
{
    match get_string(run, "type") {
        Some(t) => t,
        None => string_from("text"),
    }
}

/// The members of a translatable component.
fn translatable_body(run: &JsonValue, tp: &TextProfile, warnings: &mut Vec<String>) -> (ms: Vec<String>)
    ensures
        texts(ms@) == translatable_spec(run@, *tp).0,
        texts(final(warnings)@) == texts(old(warnings)@) + warnings_of(translatable_spec(run@, *tp).1),
    decreases run, 1nat,
{
    let mut ms: Vec<String> = Vec::new();
    push_text(&mut ms, str_member_of("type", "translatable"));
    let tr = string_or_empty(run, "translate");
    push_text(&mut ms, str_member_of("translate", tr.as_str()));
    match run.get("fallback") {
        Some(f) => if !f.is_null() {
            let l = leaf_json(f);
            push_text(&mut ms, member_of("fallback", l.as_str()));
        },
        None => {},
    }
    let ghost before = texts(ms@);
    assert(texts(warnings@) =~= texts(old(warnings)@) + warnings_of(0));
    match run.get("with") {
        Some(x) => match x.as_array() {
            Some(items) => if items.len() > 0 {
                proof {
                    lemma_views(items@);
                }
                let xs = line_items(items, tp, warnings);
                let a = arr_of(&xs);
                push_text(&mut ms, member_of("with", a.as_str()));
            } else {
                proof {
                    lemma_views(items@);
                }
            },
            None => {},
        },
        None => {},
    }
    assert(texts(ms@) =~= translatable_spec(run@, *tp).0);
    ms
}

/// The members of an object component.
fn object_body(run: &JsonValue) -> (ms: Vec<String>)
    ensures
        texts(ms@) == object_members(run@),
{
    let mut ms: Vec<String> = Vec::new();
    push_text(&mut ms, str_member_of("type", "object"));
    let obj = get_string(run, "object");
    let is_player = match &obj {
        Some(o) => str_eq(o.as_str(), "player"),
        None => false,
    };
    if is_player {
        push_text(&mut ms, str_member_of("object", "player"));
        let p = string_or_empty(run, "player");
        push_text(&mut ms, str_member_of("player", p.as_str()));
        push_bool_member(&mut ms, run, "hat");
    } else {
        push_text(&mut ms, str_member_of("object", "atlas"));
        let atlas = match get_string(run, "atlas") {
            Some(a) => if a.unicode_len() > 0 {
                a
            } else {
                string_from("minecraft:blocks")
            },
            None => string_from("minecraft:blocks"),
        };
        push_text(&mut ms, str_member_of("atlas", atlas.as_str()));
        let sp = string_or_empty(run, "sprite");
        push_text(&mut ms, str_member_of("sprite", sp.as_str()));
    }
    assert(texts(ms@) =~= object_members(run@));
    ms
}

/// The member of a score component.
fn score_body(run: &JsonValue) -> (ms: Vec<String>)
    ensures
        texts(ms@) == score_members(run@),
{
    let (name, objective) = match run.get("score") {
        Some(sc) => (string_or_empty(sc, "name"), string_or_empty(sc, "objective")),
        None => (String::new(), String::new()),
    };
    let mut inner: Vec<String> = Vec::new();
    push_text(&mut inner, str_member_of("name", name.as_str()));
    push_text(&mut inner, str_member_of("objective", objective.as_str()));
    let o = obj_of(&inner);
    let mut ms: Vec<String> = Vec::new();
    push_text(&mut ms, member_of("score", o.as_str()));
    assert(texts(inner@) =~= seq![member("name"@, json_quoted(name@)), member("objective"@, json_quoted(objective@))]);
    assert(texts(ms@) =~= score_members(run@));
    ms
}

/// The members of an NBT component before its separator.
fn nbt_body(run: &JsonValue) -> (ms: Vec<String>)
    ensures
        texts(ms@) == nbt_members(run@),
{
    let mut ms: Vec<String> = Vec::new();
    let nbt = string_or_empty(run, "nbt");
    push_text(&mut ms, str_member_of("nbt", nbt.as_str()));
    let source = match get_string(run, "source") {
        Some(s) => s,
        None => string_from("block"),
    };
    let src = source.as_str();
    push_text(&mut ms, str_member_of("source", src));
    let ghost a0 = texts(ms@);
    if str_eq(src, "block") {
        push_nonempty_member(&mut ms, "block", get_string(run, "block"));
    }
    let ghost a1 = texts(ms@);
    if str_eq(src, "entity") {
        push_nonempty_member(&mut ms, "entity", get_string(run, "entity"));
    }
    let ghost a2 = texts(ms@);
    if str_eq(src, "storage") {
        match get_string(run, "storage") {
            Some(st) => if st.unicode_len() > 0 {
                let n = namespaced(st.as_str());
                push_text(&mut ms, str_member_of("storage", n.as_str()));
            },
            None => {},
        }
    }
    let ghost a3 = texts(ms@);
    push_bool_member(&mut ms, run, "interpret");
    assert(texts(ms@) =~= nbt_members(run@));
    ms
}

/// The content members of a component, by its type.
fn component_body(run: &JsonValue, tp: &TextProfile, warnings: &mut Vec<String>) -> (ms: Vec<String>)
    ensures
        texts(ms@) == body_spec(run@, *tp).0,
        texts(final(warnings)@) == texts(old(warnings)@) + warnings_of(body_spec(run@, *tp).1),
    decreases run, 2nat,
{
    let ty = component_type(run);
    let t = ty.as_str();
    assert(texts(warnings@) =~= texts(old(warnings)@) + warnings_of(0));
    if str_eq(t, "translatable") {
        translatable_body(run, tp, warnings)
    } else if str_eq(t, "object") {
        object_body(run)
    } else if str_eq(t, "keybind") {
        let k = string_or_empty(run, "keybind");
        let mut ms: Vec<String> = Vec::new();
        push_text(&mut ms, str_member_of("keybind", k.as_str()));
        assert(texts(ms@) =~= body_spec(run@, *tp).0);
        ms
    } else if str_eq(t, "selector") {
        let sel = string_or_empty(run, "selector");
        let mut ms: Vec<String> = Vec::new();
        push_text(&mut ms, str_member_of("selector", sel.as_str()));
        let sep = separator_members(run, tp, warnings);
        append_texts(&mut ms, sep);
        assert(texts(ms@) =~= body_spec(run@, *tp).0);
        ms
    } else if str_eq(t, "score") {
        score_body(run)
    } else if str_eq(t, "nbt") {
        let mut ms = nbt_body(run);
        let sep = separator_members(run, tp, warnings);
        append_texts(&mut ms, sep);
        ms
    } else {
        let tx = value_as_text(run.get("text"));
        let mut ms: Vec<String> = Vec::new();
        push_text(&mut ms, str_member_of("text", tx.as_str()));
        assert(texts(ms@) =~= body_spec(run@, *tp).0);
        ms
    }
}

/// A component as a JSON object, or `None` when it is not an object or is an object component
/// on a version without them (which adds a warning).
pub fn component_to_json(run: &JsonValue, tp: &TextProfile, warnings: &mut Vec<String>) -> (r: Option<String>)
    ensures
        opt_text(r) == comp_spec(run@, *tp).0,
        texts(final(warnings)@) == texts(old(warnings)@) + warnings_of(comp_spec(run@, *tp).1),
    decreases run, 3nat,
{
    if !run.is_object() {
        assert(texts(warnings@) =~= texts(old(warnings)@) + warnings_of(0));
        return None;
    }
    let ty = component_type(run);
    if str_eq(ty.as_str(), "object") && !tp.supports_object_component {
        push_warning(warnings);
        return None;
    }
    let ghost w0 = texts(warnings@);
    let mut ms = component_body(run, tp, warnings);
    let st = style_members(run, tp, warnings);
    proof {
        lemma_warnings_add(body_spec(run@, *tp).1, style_spec(run@, *tp).1);
    }
    append_texts(&mut ms, st);
    Some(obj_of(&ms))
}

/// A line as JSON: the array of its components that survive.
pub fn rich_line_json(line: &RichLine, tp: &TextProfile, warnings: &mut Vec<String>) -> (s: String)
    ensures
        s@ == arr_text(line_spec(views(line@), *tp).0),
        texts(final(warnings)@) == texts(old(warnings)@) + warnings_of(line_spec(views(line@), *tp).1),
{
    let xs = line_items(line, tp, warnings);
    arr_of(&xs)
}

/// A line as JSON, as a single-quoted SNBT string when `as_snbt`.
pub fn serialize_text(line: &RichLine, as_snbt: bool, tp: &TextProfile, warnings: &mut Vec<String>) -> (s: String)
    ensures
        s@ == text_spec(views(line@), as_snbt, *tp).0,
        texts(final(warnings)@) == texts(old(warnings)@) + warnings_of(text_spec(views(line@), as_snbt, *tp).1),
{
    let j = rich_line_json(line, tp, warnings);
    if as_snbt {
        snbt_json_string(j.as_str())
    } else {
        j
    }
}

/// A line as a single-quoted SNBT string of JSON, shaped for the version (for entity custom
/// names and block-entity text, written the same way as `/give`).
pub fn rich_line_to_snbt_string(line: &RichLine, version: GiveVersion, warnings: &mut Vec<String>) -> (s: String)
    ensures
        s@ == text_spec(views(line@), true, text_profile_of(version)).0,
        texts(final(warnings)@) == texts(old(warnings)@) + warnings_of(
            text_spec(views(line@), true, text_profile_of(version)).1,
        ),
{
    let tp = resolve_text_profile(version);
    serialize_text(line, true, &tp, warnings)
}

} // verus!
