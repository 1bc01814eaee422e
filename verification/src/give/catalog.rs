//! Catalog lookups: mapping an id or a Chinese display name to its canonical id, and
//! rejecting ids that are not in an official catalog (ids the model made up).

use vstd::prelude::*;
use crate::give::builder::GiveVersion;
use crate::text::{
    chars_of, contains_char, has_char, is_blank, push_str, str_eq, string_from, string_of, trim_chars, trim_spec,
};

verus! {

/// `text` with `minecraft:` in front, unless it already names a namespace (holds a `:`).
pub open spec fn namespaced_spec(text: Seq<char>) -> Seq<char> {
    if has_char(text, ':') {
        text
    } else {
        "minecraft:"@ + text
    }
}

/// Adds the `minecraft:` namespace to an id that has none; ids with a namespace (such as
/// `mymod:foo`) are kept.
pub fn namespaced(text: &str) -> (r: String)
    ensures
        r@ == namespaced_spec(text@),
{
    if contains_char(text, ':') {
        string_from(text)
    } else {
        let mut r = string_from("minecraft:");
        push_str(&mut r, text);
        r
    }
}

/// The canonical id of `text` in a table of (id, display name) rows: the id of the first row
/// whose id or name is `text`, otherwise `text` itself, namespaced (a mod item or custom id).
pub open spec fn map_catalog_spec(rows: Seq<(&str, &str)>, text: Seq<char>) -> Seq<char>
    decreases rows.len(),
{
    if rows.len() == 0 {
        namespaced_spec(text)
    } else if text == rows[0].0@ || text == rows[0].1@ {
        rows[0].0@
    } else {
        map_catalog_spec(rows.drop_first(), text)
    }
}

/// Looks `text` up by id or display name; see `map_catalog_spec`.
pub fn map_catalog(rows: &[(&str, &str)], text: &str) -> (r: String)
    ensures
        r@ == map_catalog_spec(rows@, text@),
{
    let mut i: usize = 0;
    assert(rows@.subrange(0, rows@.len() as int) =~= rows@);
    while i < rows.len()
        invariant
            i <= rows@.len(),
            map_catalog_spec(rows@, text@) == map_catalog_spec(rows@.subrange(i as int, rows@.len() as int), text@),
        decreases rows@.len() - i,
    {
        let (id, name) = rows[i];
        proof {
            let rest = rows@.subrange(i as int, rows@.len() as int);
            assert(rest.drop_first() =~= rows@.subrange(i + 1, rows@.len() as int));
            assert(rest[0] == rows@[i as int]);
        }
        if str_eq(text, id) || str_eq(text, name) {
            return string_from(id);
        }
        i = i + 1;
    }
    assert(rows@.subrange(i as int, rows@.len() as int) =~= Seq::<(&str, &str)>::empty());
    namespaced(text)
}

/// A catalog: its (id, display name) rows, for lookups by id.
pub struct Indexed {
    pub rows: &'static [(&'static str, &'static str)],
}

/// `id` is the id of some row.
pub open spec fn catalog_has(rows: Seq<(&str, &str)>, id: Seq<char>) -> bool {
    exists|i: int| 0 <= i < rows.len() && (#[trigger] rows[i]).0@ == id
}

impl Indexed {
    /// A catalog over `rows`.
    pub fn new(rows: &'static [(&'static str, &'static str)]) -> (c: Indexed)
        ensures
            c.rows@ == rows@,
    {
        Indexed { rows }
    }

    /// Some row has the id `id`.
    pub fn has(&self, id: &str) -> (b: bool)
        ensures
            b == catalog_has(self.rows@, id@),
    {
        let mut i: usize = 0;
        while i < self.rows.len()
            invariant
                i <= self.rows@.len(),
                forall|j: int| 0 <= j < i ==> (#[trigger] self.rows@[j]).0@ != id@,
            decreases self.rows@.len() - i,
        {
            if str_eq(self.rows[i].0, id) {
                return true;
            }
            i = i + 1;
        }
        false
    }
}

/// The particle id before any `{...}` parameters, trimmed; the text unchanged when it has
/// no `{`.
pub open spec fn particle_id_spec(raw: Seq<char>) -> Seq<char> {
    if has_char(raw, '{') {
        let i = choose|i: int| 0 <= i < raw.len() && raw[i] == '{' && forall|j: int| 0 <= j < i ==> raw[j] != '{';
        trim_spec(raw.subrange(0, i))
    } else {
        raw
    }
}

/// The id part of a particle argument: `minecraft:dust{color:[...]}` gives `minecraft:dust`.
pub fn particle_id_only(raw: &str) -> (r: String)
    ensures
        r@ == particle_id_spec(raw@),
{
    let v = chars_of(raw);
    let mut i: usize = 0;
    while i < v.len()
        invariant
            v@ == raw@,
            i <= v@.len(),
            forall|j: int| 0 <= j < i ==> v@[j] != '{',
        decreases v@.len() - i,
    {
        if v[i] == '{' {
            let mut head: Vec<char> = Vec::new();
            let mut k: usize = 0;
            while k < i
                invariant
                    v@ == raw@,
                    k <= i < v@.len(),
                    head@ == v@.subrange(0, k as int),
                decreases i - k,
            {
                head.push(v[k]);
                k = k + 1;
                assert(head@ =~= v@.subrange(0, k as int));
            }
            let t = trim_chars(&head);
            proof {
                let w = choose|w: int|
                    0 <= w < raw@.len() && raw@[w] == '{' && forall|j: int| 0 <= j < w ==> raw@[j] != '{';
                if w < i {
                    assert(v@[w] != '{');
                }
                if i < w {
                    assert(raw@[i as int] != '{');
                }
                assert(w == i);
            }
            return string_of(&t);
        }
        i = i + 1;
    }
    string_from(raw)
}

/// The refusal for a value missing from the catalog: `kind "raw" ...`.
pub open spec fn catalog_miss_message(kind: Seq<char>, raw: Seq<char>) -> Seq<char> {
    kind + " \""@ + raw + "\" 不在官方目录里，疑似 AI 编造，已拦截"@
}

/// The text of an optional string.
pub open spec fn opt_view(raw: Option<&str>) -> Option<Seq<char>> {
    match raw {
        Some(t) => Some(t@),
        None => None,
    }
}

/// The refusal of `raw` by a catalog: none when there is no value or it is blank (the
/// required-field checks report those) or the catalog has it after `map_catalog`.
pub open spec fn catalog_miss_spec(kind: Seq<char>, raw: Option<Seq<char>>, rows: Seq<(&str, &str)>) -> Option<
    Seq<char>,
> {
    match raw {
        None => None,
        Some(t) => if trim_spec(t).len() == 0 || catalog_has(rows, map_catalog_spec(rows, t)) {
            None
        } else {
            Some(catalog_miss_message(kind, t))
        },
    }
}

/// Rejects a value the catalog does not know (after `map_catalog`): the message when it is
/// missing; `None` when there is no value or it is blank (the required-field checks report
/// those) or the catalog has it.
pub fn catalog_miss(kind: &str, raw: Option<&str>, cat: &Indexed) -> (r: Option<String>)
    ensures
        match r {
            Some(m) => catalog_miss_spec(kind@, opt_view(raw), cat.rows@) == Some(m@),
            None => catalog_miss_spec(kind@, opt_view(raw), cat.rows@) is None,
        },
{
    match raw {
        None => None,
        Some(t) => {
            if is_blank(t) {
                return None;
            }
            let id = map_catalog(cat.rows, t);
            if cat.has(id.as_str()) {
                return None;
            }
            let mut m = string_from(kind);
            push_str(&mut m, " \"");
            push_str(&mut m, t);
            push_str(&mut m, "\" 不在官方目录里，疑似 AI 编造，已拦截");
            Some(m)
        },
    }
}

/// The official catalogs intents are checked against: items, blocks and entities for Java and
/// for Bedrock; enchantments, effects, attributes and particles are shared by both.
pub struct GiveCatalogs {
    pub items: &'static [(&'static str, &'static str)],
    pub blocks: &'static [(&'static str, &'static str)],
    pub entities: &'static [(&'static str, &'static str)],
    pub bedrock_items: &'static [(&'static str, &'static str)],
    pub bedrock_blocks: &'static [(&'static str, &'static str)],
    pub bedrock_entities: &'static [(&'static str, &'static str)],
    pub enchants: &'static [(&'static str, &'static str)],
    pub effects: &'static [(&'static str, &'static str)],
    pub attributes: &'static [(&'static str, &'static str)],
    pub particles: &'static [(&'static str, &'static str)],
}

impl GiveCatalogs {
    /// The item rows of a version.
    pub open spec fn items_for(&self, version: GiveVersion) -> Seq<(&'static str, &'static str)> {
        if version == GiveVersion::Bedrock {
            self.bedrock_items@
        } else {
            self.items@
        }
    }

    /// The block rows of a version.
    pub open spec fn blocks_for(&self, version: GiveVersion) -> Seq<(&'static str, &'static str)> {
        if version == GiveVersion::Bedrock {
            self.bedrock_blocks@
        } else {
            self.blocks@
        }
    }

    /// The entity rows of a version.
    pub open spec fn entities_for(&self, version: GiveVersion) -> Seq<(&'static str, &'static str)> {
        if version == GiveVersion::Bedrock {
            self.bedrock_entities@
        } else {
            self.entities@
        }
    }

    /// The item catalog of a version (Bedrock has its own).
    pub fn items(&self, version: GiveVersion) -> (c: Indexed)
        ensures
            c.rows@ == self.items_for(version),
    {
        if version == GiveVersion::Bedrock {
            Indexed::new(self.bedrock_items)
        } else {
            Indexed::new(self.items)
        }
    }

    /// The block catalog of a version.
    pub fn blocks(&self, version: GiveVersion) -> (c: Indexed)
        ensures
            c.rows@ == self.blocks_for(version),
    {
        if version == GiveVersion::Bedrock {
            Indexed::new(self.bedrock_blocks)
        } else {
            Indexed::new(self.blocks)
        }
    }

    /// The entity catalog of a version.
    pub fn entities(&self, version: GiveVersion) -> (c: Indexed)
        ensures
            c.rows@ == self.entities_for(version),
    {
        if version == GiveVersion::Bedrock {
            Indexed::new(self.bedrock_entities)
        } else {
            Indexed::new(self.entities)
        }
    }

    /// The enchantment catalog.
    pub fn enchants(&self) -> (c: Indexed)
        ensures
            c.rows@ == self.enchants@,
    {
        Indexed::new(self.enchants)
    }

    /// The effect catalog.
    pub fn effects(&self) -> (c: Indexed)
        ensures
            c.rows@ == self.effects@,
    {
        Indexed::new(self.effects)
    }

    /// The attribute catalog.
    pub fn attributes(&self) -> (c: Indexed)
        ensures
            c.rows@ == self.attributes@,
    {
        Indexed::new(self.attributes)
    }

    /// The particle catalog.
    pub fn particles(&self) -> (c: Indexed)
        ensures
            c.rows@ == self.particles@,
    {
        Indexed::new(self.particles)
    }
}

} // verus!
