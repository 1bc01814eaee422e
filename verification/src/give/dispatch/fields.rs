//! Reading the loose form of an intent: the model leaves fields out and gets their types
//! wrong, so every read falls back to a default rather than failing.

use vstd::prelude::*;
use crate::give::json::{jget, lemma_member_views, lemma_views, str_of, views, JsonValue, JsonView};
use crate::give::number::Decimal;
use crate::text::string_from;

verus! {

/// Truthiness as the dispatcher reads flags: `null`, `false`, `0`, `""`, `[]` and `{}` are
/// false, anything else true.
pub open spec fn loose_truthy(v: JsonView) -> bool {
    match v {
        JsonView::Null => false,
        JsonView::Bool(b) => b,
        JsonView::Number(d) => d.mantissa != 0,
        JsonView::String(s) => s.len() > 0,
        JsonView::Array(a) => a.len() > 0,
        JsonView::Object(ms) => ms.len() > 0,
    }
}

/// Truthiness of a value (see `loose_truthy`).
pub fn truthy(v: &JsonValue) -> (b: bool)
    ensures
        b == loose_truthy(v@),
{
    match v {
        JsonValue::Null => false,
        JsonValue::Bool(b) => *b,
        JsonValue::Number(d) => d.mantissa != 0,
        JsonValue::String(s) => s.unicode_len() > 0,
        JsonValue::Array(a) => {
            proof {
                lemma_views(a@);
            }
            a.len() > 0
        },
        JsonValue::Object(ms) => {
            proof {
                lemma_member_views(ms@);
            }
            ms.len() > 0
        },
    }
}

/// A flag: the truthiness of the member, false when it is missing.
pub open spec fn flag_of(v: JsonView, k: Seq<char>) -> bool {
    match jget(v, k) {
        Some(x) => loose_truthy(x),
        None => false,
    }
}

/// A flag (see `flag_of`).
pub fn flag(v: &JsonValue, k: &str) -> (b: bool)
    ensures
        b == flag_of(v@, k@),
{
    match v.get(k) {
        Some(x) => truthy(x),
        None => false,
    }
}

/// An optional flag: the truthiness of the member when it is there.
pub open spec fn flag_opt_of(v: JsonView, k: Seq<char>) -> Option<bool> {
    match jget(v, k) {
        Some(x) => Some(loose_truthy(x)),
        None => None,
    }
}

/// An optional flag (see `flag_opt_of`).
pub fn flag_opt(v: &JsonValue, k: &str) -> (b: Option<bool>)
    ensures
        b == flag_opt_of(v@, k@),
{
    match v.get(k) {
        Some(x) => Some(truthy(x)),
        None => None,
    }
}

/// A whole number: a number rounded to the nearest integer (ties away from zero, held to
/// the `i64` range); nothing for any other value.
pub open spec fn int_of(v: JsonView) -> Option<i64> {
    match v {
        JsonView::Number(d) => Some(d.round_int() as i64),
        _ => None,
    }
}

/// A whole number (see `int_of`).
pub fn int_value(v: &JsonValue) -> (r: Option<i64>)
    ensures
        r == int_of(v@),
{
    match v {
        JsonValue::Number(d) => Some(d.round_i64()),
        _ => None,
    }
}

/// The member as a whole number.
pub open spec fn int_at(v: JsonView, k: Seq<char>) -> Option<i64> {
    match jget(v, k) {
        Some(x) => int_of(x),
        None => None,
    }
}

/// The member as a whole number (see `int_at`).
pub fn opt_int(v: &JsonValue, k: &str) -> (r: Option<i64>)
    ensures
        r == int_at(v@, k@),
{
    match v.get(k) {
        Some(x) => int_value(x),
        None => None,
    }
}

/// The member when it is a number.
pub open spec fn number_at(v: JsonView, k: Seq<char>) -> Option<Decimal> {
    match jget(v, k) {
        Some(JsonView::Number(d)) => Some(d),
        _ => None,
    }
}

/// A number member (see `number_at`).
pub fn opt_number(v: &JsonValue, k: &str) -> (r: Option<Decimal>)
    ensures
        r == number_at(v@, k@),
{
    match v.get(k) {
        Some(JsonValue::Number(d)) => Some(*d),
        _ => None,
    }
}

/// The items of an array member; none when the member is missing or not an array.
pub open spec fn items_at(v: JsonView, k: Seq<char>) -> Seq<JsonView> {
    match jget(v, k) {
        Some(JsonView::Array(a)) => a,
        _ => seq![],
    }
}

/// The array member, when there is one.
pub fn array_at<'a>(v: &'a JsonValue, k: &str) -> (r: Option<&'a Vec<JsonValue>>)
    ensures
        match r {
            Some(a) => jget(v@, k@) == Some(JsonView::Array(views(a@))) && items_at(v@, k@) == views(a@),
            None => items_at(v@, k@) == Seq::<JsonView>::empty() && !(jget(v@, k@) matches Some(JsonView::Array(_))),
        },
{
    match v.get(k) {
        Some(x) => x.as_array(),
        None => None,
    }
}

/// The text of a value when it is a string, empty otherwise.
pub open spec fn text_or_empty(v: JsonView) -> Seq<char> {
    match str_of(v) {
        Some(s) => s,
        None => seq![],
    }
}

/// The text of a value when it is a string, empty otherwise.
pub fn text_of(v: &JsonValue) -> (s: String)
    ensures
        s@ == text_or_empty(v@),
{
    match v.as_str() {
        Some(t) => string_from(t),
        None => String::new(),
    }
}

/// The `i`-th item of an array member as text; empty when missing or not a string.
pub open spec fn coord_at(v: JsonView, k: Seq<char>, i: int) -> Seq<char> {
    let a = items_at(v, k);
    if 0 <= i < a.len() {
        text_or_empty(a[i])
    } else {
        seq![]
    }
}

/// The `i`-th item of an array member as text (see `coord_at`).
pub fn coord_of(v: &JsonValue, k: &str, i: usize) -> (s: String)
    ensures
        s@ == coord_at(v@, k@, i as int),
{
    match array_at(v, k) {
        Some(a) => {
            proof {
                lemma_views(a@);
            }
            if i < a.len() {
                text_of(&a[i])
            } else {
                String::new()
            }
        },
        None => String::new(),
    }
}

/// Three coordinates from an array member; a missing or non-string one is empty.
pub fn coords3(v: &JsonValue, k: &str) -> (c: [String; 3])
    ensures
        c@[0]@ == coord_at(v@, k@, 0),
        c@[1]@ == coord_at(v@, k@, 1),
        c@[2]@ == coord_at(v@, k@, 2),
{
    [coord_of(v, k, 0), coord_of(v, k, 1), coord_of(v, k, 2)]
}

/// An owned string and an optional text are the same.
pub open spec fn same_text(a: Option<String>, b: Option<Seq<char>>) -> bool {
    match (a, b) {
        (Some(x), Some(y)) => x@ == y,
        (None, None) => true,
        _ => false,
    }
}

/// The text of an optional owned string.
pub open spec fn opt_text(o: Option<String>) -> Option<Seq<char>> {
    match o {
        Some(t) => Some(t@),
        None => None,
    }
}

/// The first of two optional values that is there (`Option::or_else`).
pub open spec fn first_some(a: Option<Seq<char>>, b: Option<Seq<char>>) -> Option<Seq<char>> {
    match a {
        Some(x) => Some(x),
        None => b,
    }
}

} // verus!
