//! The loosely typed data of the AI intents and saved forms: a JSON value, read the way the
//! form code reads it (`get`, `as_str`, JavaScript truthiness and `Number(...)`), and the
//! ordered JSON that the text components are written in.

use vstd::prelude::*;
use crate::give::builder::{lemma_split_nonempty, split_on};
use crate::give::number::{Decimal, NumberText, parse_number, parse_number_spec};
use crate::text::{chars_of, push_char, push_str, str_eq, string_from, string_of, trim, trim_spec};

verus! {

/// A JSON value. Object members keep their order; a key is looked up at its first occurrence.
#[derive(Debug)]
pub enum JsonValue {
    Null,
    Bool(bool),
    Number(Decimal),
    String(String),
    Array(Vec<JsonValue>),
    Object(Vec<(String, JsonValue)>),
}

/// What a JSON value holds, as mathematical values.
pub enum JsonView {
    Null,
    Bool(bool),
    Number(Decimal),
    String(Seq<char>),
    Array(Seq<JsonView>),
    Object(Seq<(Seq<char>, JsonView)>),
}

/// The views of a sequence of values.
pub open spec fn views(s: Seq<JsonValue>) -> Seq<JsonView>
    decreases s,
{
    if s.len() == 0 {
        seq![]
    } else {
        seq![view_of(s[0])] + views(s.drop_first())
    }
}

/// The views of a sequence of members.
pub open spec fn member_views(s: Seq<(String, JsonValue)>) -> Seq<(Seq<char>, JsonView)>
    decreases s,
{
    if s.len() == 0 {
        seq![]
    } else {
        seq![(s[0].0@, view_of(s[0].1))] + member_views(s.drop_first())
    }
}

/// The view of a value.
pub open spec fn view_of(v: JsonValue) -> JsonView
    decreases v,
{
    match v {
        JsonValue::Null => JsonView::Null,
        JsonValue::Bool(b) => JsonView::Bool(b),
        JsonValue::Number(d) => JsonView::Number(d),
        JsonValue::String(s) => JsonView::String(s@),
        JsonValue::Array(items) => JsonView::Array(views(items@)),
        JsonValue::Object(members) => JsonView::Object(member_views(members@)),
    }
}

impl View for JsonValue {
    type V = JsonView;

    open spec fn view(&self) -> JsonView {
        view_of(*self)
    }
}

/// The views of a sequence, item by item.
pub proof fn lemma_views(s: Seq<JsonValue>)
    ensures
        views(s).len() == s.len(),
        forall|i: int| 0 <= i < s.len() ==> #[trigger] views(s)[i] == view_of(s[i]),
    decreases s.len(),
{
    if s.len() > 0 {
        lemma_views(s.drop_first());
        assert forall|i: int| 0 <= i < s.len() implies #[trigger] views(s)[i] == view_of(s[i]) by {
            if i > 0 {
                assert(views(s)[i] == views(s.drop_first())[i - 1]);
            }
        }
    }
}

/// The views of a sequence of members, member by member.
pub proof fn lemma_member_views(s: Seq<(String, JsonValue)>)
    ensures
        member_views(s).len() == s.len(),
        forall|i: int| 0 <= i < s.len() ==> #[trigger] member_views(s)[i] == (s[i].0@, view_of(s[i].1)),
    decreases s.len(),
{
    if s.len() > 0 {
        lemma_member_views(s.drop_first());
        assert forall|i: int| 0 <= i < s.len() implies #[trigger] member_views(s)[i] == (s[i].0@, view_of(s[i].1)) by {
            if i > 0 {
                assert(member_views(s)[i] == member_views(s.drop_first())[i - 1]);
            }
        }
    }
}

/// The value of the first member named `k`.
pub open spec fn lookup(ms: Seq<(Seq<char>, JsonView)>, k: Seq<char>) -> Option<JsonView>
    decreases ms.len(),
{
    if ms.len() == 0 {
        None
    } else if ms[0].0 == k {
        Some(ms[0].1)
    } else {
        lookup(ms.drop_first(), k)
    }
}

/// `value.get(k)`: the member `k` of an object.
pub open spec fn jget(v: JsonView, k: Seq<char>) -> Option<JsonView> {
    match v {
        JsonView::Object(ms) => lookup(ms, k),
        _ => None,
    }
}

/// `as_str`.
pub open spec fn str_of(v: JsonView) -> Option<Seq<char>> {
    match v {
        JsonView::String(s) => Some(s),
        _ => None,
    }
}

/// `as_bool`.
pub open spec fn bool_of(v: JsonView) -> Option<bool> {
    match v {
        JsonView::Bool(b) => Some(b),
        _ => None,
    }
}

/// `get(k).and_then(as_str)`.
pub open spec fn get_str(v: JsonView, k: Seq<char>) -> Option<Seq<char>> {
    match jget(v, k) {
        Some(x) => str_of(x),
        None => None,
    }
}

/// `get(k).and_then(as_bool)`.
pub open spec fn get_bool(v: JsonView, k: Seq<char>) -> Option<bool> {
    match jget(v, k) {
        Some(x) => bool_of(x),
        None => None,
    }
}

/// `get(k).and_then(as_str).unwrap_or("")`.
pub open spec fn str_or_empty(v: JsonView, k: Seq<char>) -> Seq<char> {
    match get_str(v, k) {
        Some(s) => s,
        None => seq![],
    }
}

/// JavaScript truthiness: `null`, `false`, `0` and `""` are false; everything else (empty
/// arrays and objects too) is true.
pub open spec fn truthy_spec(v: JsonView) -> bool {
    match v {
        JsonView::Null => false,
        JsonView::Bool(b) => b,
        JsonView::Number(d) => d.mantissa != 0,
        JsonView::String(s) => s.len() > 0,
        _ => true,
    }
}

/// The number zero.
pub open spec fn zero() -> Decimal {
    Decimal { mantissa: 0, exponent: 0 }
}

/// `Number(value)` as the form code takes it: a number as it is, a string parsed as a float
/// once trimmed (blank is 0), `true`/`false` as 1/0, `null` as 0; arrays and objects are not
/// numbers.
pub open spec fn js_number(v: JsonView) -> Option<NumberText> {
    match v {
        JsonView::Number(d) => Some(NumberText::Finite(d)),
        JsonView::String(s) => {
            let t = trim_spec(s);
            if t.len() == 0 {
                Some(NumberText::Finite(zero()))
            } else {
                parse_number_spec(t)
            }
        },
        JsonView::Bool(b) => Some(NumberText::Finite(Decimal { mantissa: if b { 1 } else { 0 }, exponent: 0 })),
        JsonView::Null => Some(NumberText::Finite(zero())),
        _ => None,
    }
}

/// The finite number a value stands for, if any.
pub open spec fn finite_of(v: JsonView) -> Option<Decimal> {
    match js_number(v) {
        Some(NumberText::Finite(d)) => Some(d),
        _ => None,
    }
}

/// `String(value ?? "")`: a string as it is, a number in plain decimal, `true`/`false`; empty
/// for a missing value, `null`, an array or an object.
pub open spec fn value_text(v: Option<JsonView>) -> Seq<char> {
    match v {
        Some(JsonView::String(s)) => s,
        Some(JsonView::Number(d)) => d.plain(),
        Some(JsonView::Bool(b)) => if b { "true"@ } else { "false"@ },
        _ => seq![],
    }
}

/// `normalizeInt`: the floor of the number, at least `min`, or `fallback` when the value is not
/// a finite number.
pub open spec fn int_or(v: JsonView, fallback: i64, min: i64) -> i64 {
    match finite_of(v) {
        Some(d) => if d.floor_int() < min { min } else { d.floor_int() as i64 },
        None => fallback,
    }
}

/// `normalizeNumber` with a floor of 0: the number, 0 if negative, or `fallback` when the value
/// is not a finite number.
pub open spec fn nonneg_or(v: JsonView, fallback: Decimal) -> Decimal {
    match finite_of(v) {
        Some(d) => if d.mantissa < 0 { zero() } else { d },
        None => fallback,
    }
}

/// `fmtNumber`: the ten-decimal text of a finite number, else the value's text trimmed.
pub open spec fn number_text(v: JsonView) -> Seq<char> {
    match finite_of(v) {
        Some(d) => d.fixed(),
        None => trim_spec(value_text(Some(v))),
    }
}

/// `percentToProbability`: a finite number as a probability, otherwise that of 0.
pub open spec fn probability_text(v: JsonView) -> Seq<char> {
    match finite_of(v) {
        Some(d) => d.percent(),
        None => seq!['0'],
    }
}

/// The trimmed, non-empty parts.
pub open spec fn nonblank_trimmed(parts: Seq<Seq<char>>) -> Seq<Seq<char>>
    decreases parts.len(),
{
    if parts.len() == 0 {
        seq![]
    } else {
        let r = nonblank_trimmed(parts.drop_last());
        let t = trim_spec(parts.last());
        if t.len() > 0 {
            r.push(t)
        } else {
            r
        }
    }
}

/// `splitCsv` of a string: the comma-separated items, trimmed, without empty ones.
pub open spec fn csv_items(s: Seq<char>) -> Seq<Seq<char>> {
    nonblank_trimmed(split_on(s, ','))
}

/// The trimmed, non-empty strings among the values (others are skipped).
pub open spec fn array_items(vs: Seq<JsonView>) -> Seq<Seq<char>>
    decreases vs.len(),
{
    if vs.len() == 0 {
        seq![]
    } else {
        let r = array_items(vs.drop_last());
        match vs.last() {
            JsonView::String(s) => if trim_spec(s).len() > 0 {
                r.push(trim_spec(s))
            } else {
                r
            },
            _ => r,
        }
    }
}

/// `splitCsv(value)`: the strings of an array, the items of a comma-separated string, or the
/// items of the value's text.
pub open spec fn split_csv_spec(v: JsonView) -> Seq<Seq<char>> {
    match v {
        JsonView::Array(vs) => array_items(vs),
        JsonView::String(s) => csv_items(s),
        _ => csv_items(value_text(Some(v))),
    }
}

/// The texts of a sequence of strings.
pub open spec fn texts(v: Seq<String>) -> Seq<Seq<char>> {
    Seq::new(v.len(), |i: int| v[i]@)
}

impl JsonValue {
    /// A copy of the value.
    pub fn copy(&self) -> (r: JsonValue)
        ensures
            r@ == self@,
        decreases self, 0nat,
    {
        match self {
            JsonValue::Null => JsonValue::Null,
            JsonValue::Bool(b) => JsonValue::Bool(*b),
            JsonValue::Number(d) => JsonValue::Number(*d),
            JsonValue::String(s) => JsonValue::String(string_from(s.as_str())),
            JsonValue::Array(items) => {
                let out = copy_items(items);
                JsonValue::Array(out)
            },
            JsonValue::Object(members) => {
                let out = copy_members(members);
                JsonValue::Object(out)
            },
        }
    }

    /// `get(key)`: the first member named `key` of an object.
    pub fn get(&self, key: &str) -> (r: Option<&JsonValue>)
        ensures
            match r {
                Some(x) => jget(self@, key@) == Some(x@) && decreases_to!(*self => *x),
                None => jget(self@, key@) is None,
            },
    {
        match self {
            JsonValue::Object(members) => {
                proof {
                    lemma_member_views(members@);
                    assert(member_views(members@).subrange(0, member_views(members@).len() as int) =~= member_views(
                        members@,
                    ));
                }
                let ghost ms = member_views(members@);
                assert(self@ == JsonView::Object(ms));
                let mut i: usize = 0;
                while i < members.len()
                    invariant
                        i <= members@.len(),
                        ms == member_views(members@),
                        ms.len() == members@.len(),
                        forall|j: int| 0 <= j < members@.len() ==> #[trigger] ms[j] == (members@[j].0@, view_of(members@[j].1)),
                        lookup(ms, key@) == lookup(ms.subrange(i as int, ms.len() as int), key@),
                        self@ == JsonView::Object(ms),
                        *self == JsonValue::Object(*members),
                    decreases members@.len() - i,
                {
                    let ghost rest = ms.subrange(i as int, ms.len() as int);
                    if str_eq(members[i].0.as_str(), key) {
                        assert(rest.len() > 0);
                        assert(rest[0] == ms[i as int]);
                        assert(rest[0].0 == key@);
                        assert(lookup(rest, key@) == Some(rest[0].1));
                        assert(self@ == JsonView::Object(ms));
                        assert(decreases_to!(*self => members@[i as int].1)) by {
                            assert(decreases_to!(*self => *members));
                            assert(decreases_to!(*members => members@[i as int].1));
                        }
                        return Some(&members[i].1);
                    }
                    assert(rest.drop_first() =~= ms.subrange(i + 1, ms.len() as int));
                    i = i + 1;
                }
                None
            },
            _ => None,
        }
    }

    /// `as_str`.
    pub fn as_str(&self) -> (r: Option<&str>)
        ensures
            match r {
                Some(s) => str_of(self@) == Some(s@),
                None => str_of(self@) is None,
            },
    {
        match self {
            JsonValue::String(s) => Some(s.as_str()),
            _ => None,
        }
    }

    /// `as_bool`.
    pub fn as_bool(&self) -> (r: Option<bool>)
        ensures
            r == bool_of(self@),
    {
        match self {
            JsonValue::Bool(b) => Some(*b),
            _ => None,
        }
    }

    /// `as_array`.
    pub fn as_array(&self) -> (r: Option<&Vec<JsonValue>>)
        ensures
            match r {
                Some(a) => self@ == JsonView::Array(views(a@)) && decreases_to!(*self => *a),
                None => !(self@ is Array),
            },
    {
        match self {
            JsonValue::Array(a) => Some(a),
            _ => None,
        }
    }

    /// `is_null`.
    pub fn is_null(&self) -> (r: bool)
        ensures
            r == (self@ is Null),
    {
        match self {
            JsonValue::Null => true,
            _ => false,
        }
    }

    /// `is_object`.
    pub fn is_object(&self) -> (r: bool)
        ensures
            r == (self@ is Object),
    {
        match self {
            JsonValue::Object(_) => true,
            _ => false,
        }
    }
}

/// Copies of the values, in order.
pub fn copy_items(items: &Vec<JsonValue>) -> (out: Vec<JsonValue>)
    ensures
        views(out@) == views(items@),
    decreases items, 1nat,
{
    let mut out: Vec<JsonValue> = Vec::new();
    let mut i: usize = 0;
    proof {
        lemma_views(items@);
    }
    while i < items.len()
        invariant
            i <= items@.len(),
            out@.len() == i,
            forall|j: int| 0 <= j < i ==> view_of(#[trigger] out@[j]) == view_of(items@[j]),
        decreases items@.len() - i,
    {
        proof {
            assert(decreases_to!(items => items@[i as int]));
        }
        let c = items[i].copy();
        out.push(c);
        i = i + 1;
    }
    proof {
        lemma_views(out@);
        assert(views(out@) =~= views(items@));
    }
    out
}

/// Copies of the members, in order.
pub fn copy_members(members: &Vec<(String, JsonValue)>) -> (out: Vec<(String, JsonValue)>)
    ensures
        member_views(out@) == member_views(members@),
    decreases members, 1nat,
{
    let mut out: Vec<(String, JsonValue)> = Vec::new();
    let mut i: usize = 0;
    proof {
        lemma_member_views(members@);
    }
    while i < members.len()
        invariant
            i <= members@.len(),
            out@.len() == i,
            forall|j: int|
                0 <= j < i ==> (#[trigger] out@[j]).0@ == members@[j].0@ && view_of(out@[j].1) == view_of(
                    members@[j].1,
                ),
        decreases members@.len() - i,
    {
        proof {
            assert(decreases_to!(members => members@[i as int].1));
        }
        let k = string_from(members[i].0.as_str());
        let c = members[i].1.copy();
        out.push((k, c));
        i = i + 1;
    }
    proof {
        lemma_member_views(out@);
        assert(member_views(out@) =~= member_views(members@));
    }
    out
}

/// `get(k).and_then(as_str)`, as an owned string.
pub fn get_string(v: &JsonValue, k: &str) -> (r: Option<String>)
    ensures
        match r {
            Some(s) => get_str(v@, k@) == Some(s@),
            None => get_str(v@, k@) is None,
        },
{
    match v.get(k) {
        Some(x) => match x.as_str() {
            Some(s) => Some(string_from(s)),
            None => None,
        },
        None => None,
    }
}

/// `get(k).and_then(as_str).unwrap_or("")`, as an owned string.
pub fn string_or_empty(v: &JsonValue, k: &str) -> (r: String)
    ensures
        r@ == str_or_empty(v@, k@),
{
    match get_string(v, k) {
        Some(s) => s,
        None => String::new(),
    }
}

/// `get(k).and_then(as_bool)`.
pub fn get_bool_field(v: &JsonValue, k: &str) -> (r: Option<bool>)
    ensures
        r == get_bool(v@, k@),
{
    match v.get(k) {
        Some(x) => x.as_bool(),
        None => None,
    }
}

/// JavaScript truthiness of a value.
pub fn truthy(v: &JsonValue) -> (b: bool)
    ensures
        b == truthy_spec(v@),
{
    match v {
        JsonValue::Null => false,
        JsonValue::Bool(b) => *b,
        JsonValue::Number(d) => d.mantissa != 0,
        JsonValue::String(s) => s.unicode_len() > 0,
        _ => true,
    }
}

/// `Number(value)` as the form code takes it.
pub fn js_number_of(v: &JsonValue) -> (r: Option<NumberText>)
    ensures
        r == js_number(v@),
{
    match v {
        JsonValue::Number(d) => Some(NumberText::Finite(*d)),
        JsonValue::String(s) => {
            let t = trim(s.as_str());
            if t.unicode_len() == 0 {
                Some(NumberText::Finite(Decimal { mantissa: 0, exponent: 0 }))
            } else {
                parse_number(t.as_str())
            }
        },
        JsonValue::Bool(b) => Some(NumberText::Finite(Decimal { mantissa: if *b { 1 } else { 0 }, exponent: 0 })),
        JsonValue::Null => Some(NumberText::Finite(Decimal { mantissa: 0, exponent: 0 })),
        _ => None,
    }
}

/// The finite number a value stands for, if any.
pub fn finite_number(v: &JsonValue) -> (r: Option<Decimal>)
    ensures
        r == finite_of(v@),
{
    match js_number_of(v) {
        Some(NumberText::Finite(d)) => Some(d),
        _ => None,
    }
}

/// `String(value ?? "")`.
pub fn value_as_text(v: Option<&JsonValue>) -> (s: String)
    ensures
        s@ == value_text(
            match v {
                Some(x) => Some(x@),
                None => None,
            },
        ),
{
    match v {
        Some(JsonValue::String(t)) => string_from(t.as_str()),
        Some(JsonValue::Number(d)) => d.plain_text(),
        Some(JsonValue::Bool(b)) => {
            let mut s = String::new();
            if *b {
                push_str(&mut s, "true");
            } else {
                push_str(&mut s, "false");
            }
            s
        },
        _ => String::new(),
    }
}

/// `normalizeInt`.
pub fn normalize_int(value: &JsonValue, fallback: i64, min: i64) -> (r: i64)
    ensures
        r == int_or(value@, fallback, min),
{
    match finite_number(value) {
        Some(d) => {
            let f = d.floor_i64();
            if f < min {
                min
            } else {
                f
            }
        },
        None => fallback,
    }
}

/// `normalizeNumber` with a floor of 0.
pub fn normalize_nonneg(value: &JsonValue, fallback: Decimal) -> (r: Decimal)
    ensures
        r == nonneg_or(value@, fallback),
{
    match finite_number(value) {
        Some(d) => if d.mantissa < 0 {
            Decimal { mantissa: 0, exponent: 0 }
        } else {
            d
        },
        None => fallback,
    }
}

/// `fmtNumber`.
pub fn fmt_number(value: &JsonValue) -> (s: String)
    ensures
        s@ == number_text(value@),
{
    match finite_number(value) {
        Some(d) => d.fixed_text(),
        None => {
            let t = value_as_text(Some(value));
            trim(t.as_str())
        },
    }
}

/// `percentToProbability`.
pub fn percent_to_probability(value: &JsonValue) -> (s: String)
    ensures
        s@ == probability_text(value@),
{
    match finite_number(value) {
        Some(d) => d.percent_text(),
        None => {
            let mut s = String::new();
            push_char(&mut s, '0');
            s
        },
    }
}

proof fn lemma_lookup_decreases(ms: Seq<(Seq<char>, JsonView)>, k: Seq<char>)
    ensures
        lookup(ms, k) matches Some(x) ==> decreases_to!(ms => x),
    decreases ms.len(),
{
    if ms.len() > 0 {
        if ms[0].0 == k {
            assert(decreases_to!(ms => ms[0]));
            assert(decreases_to!(ms[0] => ms[0].1));
        } else {
            lemma_lookup_decreases(ms.drop_first(), k);
            assert(decreases_to!(ms => ms.drop_first()));
        }
    }
}

/// A member of a value is smaller than the value.
pub proof fn lemma_jget_decreases(v: JsonView, k: Seq<char>)
    ensures
        jget(v, k) matches Some(x) ==> decreases_to!(v => x),
{
    match v {
        JsonView::Object(ms) => {
            lemma_lookup_decreases(ms, k);
            assert(decreases_to!(v => ms));
        },
        _ => {},
    }
}

/// `splitCsv` of a string: the comma-separated items, trimmed, without empty ones.
pub fn split_csv_str(s: &str) -> (r: Vec<String>)
    ensures
        texts(r@) == csv_items(s@),
{
    let v = chars_of(s);
    let mut done: Vec<String> = Vec::new();
    let mut cur: Vec<char> = Vec::new();
    let mut i: usize = 0;
    proof {
        assert(v@.subrange(0, 0) =~= Seq::<char>::empty());
        assert(texts(done@) =~= Seq::<Seq<char>>::empty());
        assert(split_on(Seq::<char>::empty(), ',').drop_last() =~= Seq::<Seq<char>>::empty());
    }
    while i < v.len()
        invariant
            i <= v@.len(),
            v@ == s@,
            split_on(v@.subrange(0, i as int), ',').len() >= 1,
            texts(done@) == nonblank_trimmed(split_on(v@.subrange(0, i as int), ',').drop_last()),
            cur@ == split_on(v@.subrange(0, i as int), ',').last(),
        decreases v@.len() - i,
    {
        let c = v[i];
        let ghost pre = v@.subrange(0, i as int);
        let ghost parts = split_on(pre, ',');
        proof {
            let next = v@.subrange(0, i + 1);
            assert(next.drop_last() =~= pre);
            assert(next.last() == c);
            lemma_split_nonempty(pre, ',');
        }
        if c == ',' {
            let t = trim(string_of(&cur).as_str());
            proof {
                assert(parts.push(seq![]).drop_last() =~= parts);
                assert(parts =~= parts.drop_last().push(parts.last()));
            }
            if t.unicode_len() > 0 {
                done.push(t);
                assert(texts(done@) =~= nonblank_trimmed(parts.drop_last()).push(trim_spec(parts.last())));
            }
            cur = Vec::new();
        } else {
            cur.push(c);
            proof {
                let np = parts.update(parts.len() - 1, parts.last().push(c));
                assert(np.drop_last() =~= parts.drop_last());
            }
        }
        i = i + 1;
    }
    let t = trim(string_of(&cur).as_str());
    proof {
        assert(v@.subrange(0, v@.len() as int) =~= v@);
        let parts = split_on(v@, ',');
        assert(parts =~= parts.drop_last().push(parts.last()));
    }
    if t.unicode_len() > 0 {
        done.push(t);
        assert(texts(done@) =~= nonblank_trimmed(split_on(v@, ',').drop_last()).push(trim_spec(split_on(v@, ',').last())));
    }
    done
}

/// `splitCsv(value)`: the strings of an array, the items of a comma-separated string, or the
/// items of the value's text.
pub fn split_csv(value: &JsonValue) -> (r: Vec<String>)
    ensures
        texts(r@) == split_csv_spec(value@),
{
    match value {
        JsonValue::Array(arr) => {
            proof {
                lemma_views(arr@);
            }
            let ghost vs = views(arr@);
            let mut out: Vec<String> = Vec::new();
            let mut i: usize = 0;
            assert(texts(out@) =~= array_items(vs.subrange(0, 0)));
            while i < arr.len()
                invariant
                    i <= arr@.len(),
                    vs == views(arr@),
                    vs.len() == arr@.len(),
                    forall|j: int| 0 <= j < arr@.len() ==> #[trigger] vs[j] == view_of(arr@[j]),
                    texts(out@) == array_items(vs.subrange(0, i as int)),
                decreases arr@.len() - i,
            {
                proof {
                    let sub = vs.subrange(0, i + 1);
                    assert(sub.drop_last() =~= vs.subrange(0, i as int));
                    assert(sub.last() == view_of(arr@[i as int]));
                }
                match arr[i].as_str() {
                    Some(t) => {
                        let tt = trim(t);
                        if tt.unicode_len() > 0 {
                            out.push(tt);
                            assert(texts(out@) =~= array_items(vs.subrange(0, i + 1)));
                        }
                    },
                    None => {},
                }
                i = i + 1;
            }
            assert(vs.subrange(0, arr@.len() as int) =~= vs);
            out
        },
        JsonValue::String(s) => split_csv_str(s.as_str()),
        _ => {
            let t = value_as_text(Some(value));
            split_csv_str(t.as_str())
        },
    }
}

} // verus!
