//! Each command's form, read from the loose JSON of an intent. A missing or mistyped field
//! takes its default: empty text, no value, false.

use vstd::prelude::*;
use crate::give::commands::clone::{CloneForm, CloneMaskMode, CloneMode};
use crate::give::builder::slashed;
use crate::give::catalog::namespaced_spec;
use crate::give::commands::effect::{effect_give_spec, EffectClearForm, EffectDuration, EffectGiveForm};
use crate::give::number::Decimal;
use crate::text::int_text;
use crate::give::commands::enchant::EnchantForm;
use crate::give::commands::execute::ExecuteForm;
use crate::give::commands::fill::{BlockFilter, FillForm, FillMode};
use crate::give::commands::particle::{ParticleForm, ParticleMode};
use crate::give::commands::say::SayForm;
use crate::give::commands::tp::{TpCoordsForm, TpEntityForm, TpForm};
use crate::give::dispatch::fields::{
    array_at, coord_at, coords3, flag, flag_of, flag_opt, flag_opt_of, int_at, int_of, int_value, items_at,
    number_at, opt_int, opt_number, same_text, text_of, text_or_empty,
};
use crate::give::component::push_text;
use crate::give::json::{get_str, get_string, jget, lemma_views, str_or_empty, string_or_empty, texts, JsonValue, JsonView};
use crate::text::str_eq;

verus! {

/// `/say`: `withSlash`, `message`.
pub open spec fn say_read(f: SayForm, v: JsonView) -> bool {
    &&& f.with_slash == flag_of(v, "withSlash"@)
    &&& f.message@ == str_or_empty(v, "message"@)
}

/// Reads a `/say` form (see `say_read`).
pub fn read_say(v: &JsonValue) -> (f: SayForm)
    ensures
        say_read(f, v@),
{
    SayForm { with_slash: flag(v, "withSlash"), message: string_or_empty(v, "message") }
}

/// `/enchant`: `withSlash`, `targets`, `enchantment`, `level`.
pub open spec fn enchant_read(f: EnchantForm, v: JsonView) -> bool {
    &&& f.with_slash == flag_of(v, "withSlash"@)
    &&& f.targets@ == str_or_empty(v, "targets"@)
    &&& f.enchantment@ == str_or_empty(v, "enchantment"@)
    &&& f.level == int_at(v, "level"@)
}

/// Reads an `/enchant` form (see `enchant_read`).
pub fn read_enchant(v: &JsonValue) -> (f: EnchantForm)
    ensures
        enchant_read(f, v@),
{
    EnchantForm {
        with_slash: flag(v, "withSlash"),
        targets: string_or_empty(v, "targets"),
        enchantment: string_or_empty(v, "enchantment"),
        level: opt_int(v, "level"),
    }
}

/// An effect duration: the text `infinite`, or a whole number of seconds.
pub open spec fn duration_at(v: JsonView, k: Seq<char>) -> Option<EffectDuration> {
    match jget(v, k) {
        Some(JsonView::String(s)) => if s == "infinite"@ {
            Some(EffectDuration::Infinite)
        } else {
            None
        },
        Some(x) => match int_of(x) {
            Some(n) => Some(EffectDuration::Seconds(n)),
            None => None,
        },
        None => None,
    }
}

fn parse_effect_duration(v: &JsonValue, k: &str) -> (d: Option<EffectDuration>)
    ensures
        d == duration_at(v@, k@),
{
    match v.get(k) {
        Some(JsonValue::String(s)) => if str_eq(s.as_str(), "infinite") {
            Some(EffectDuration::Infinite)
        } else {
            None
        },
        Some(x) => match int_value(x) {
            Some(n) => Some(EffectDuration::Seconds(n)),
            None => None,
        },
        None => None,
    }
}

/// `/effect give`: `withSlash`, `target`, `effect`, `duration`, `amplifier`,
/// `hideParticles`.
pub open spec fn effect_give_read(f: EffectGiveForm, v: JsonView) -> bool {
    &&& f.with_slash == flag_of(v, "withSlash"@)
    &&& f.target@ == str_or_empty(v, "target"@)
    &&& f.effect@ == str_or_empty(v, "effect"@)
    &&& f.duration == duration_at(v, "duration"@)
    &&& f.amplifier == int_at(v, "amplifier"@)
    &&& f.hide_particles == flag_opt_of(v, "hideParticles"@)
}

/// A number given as the duration of an `effect give` intent is kept as that many seconds
/// (rounded to a whole number); with no amplifier and no particle flag the command then ends
/// with a space and that number.
pub proof fn lemma_numeric_duration_kept(f: EffectGiveForm, v: JsonView, d: Decimal)
    requires
        effect_give_read(f, v),
        jget(v, "duration"@) == Some(JsonView::Number(d)),
    ensures
        f.duration == Some(EffectDuration::Seconds(d.round_int() as i64)),
        jget(v, "amplifier"@) is None && jget(v, "hideParticles"@) is None ==> effect_give_spec(f) == slashed(
            f.with_slash,
            "effect give "@ + f.target@ + " "@ + namespaced_spec(f.effect@) + " "@ + int_text(d.round_int()),
        ),
{
    assert(d.round_int() as i64 as int == d.round_int());
}

/// The other readings of an `effect give` intent: the text `infinite` as the duration is an
/// unlimited effect, no duration leaves the game's default, and a number as the amplifier is
/// that level, rounded to a whole number.
pub proof fn lemma_effect_readings(f: EffectGiveForm, v: JsonView)
    requires
        effect_give_read(f, v),
    ensures
        jget(v, "duration"@) == Some(JsonView::String("infinite"@)) ==> f.duration == Some(EffectDuration::Infinite),
        jget(v, "duration"@) is None ==> f.duration is None,
        jget(v, "amplifier"@) matches Some(JsonView::Number(d)) ==> f.amplifier == Some(d.round_int() as i64),
{
}

/// Reads an `/effect give` form (see `effect_give_read`).
pub fn read_effect_give(v: &JsonValue) -> (f: EffectGiveForm)
    ensures
        effect_give_read(f, v@),
{
    EffectGiveForm {
        with_slash: flag(v, "withSlash"),
        target: string_or_empty(v, "target"),
        effect: string_or_empty(v, "effect"),
        duration: parse_effect_duration(v, "duration"),
        amplifier: opt_int(v, "amplifier"),
        hide_particles: flag_opt(v, "hideParticles"),
    }
}

/// `/effect clear`: `withSlash`, `target`, `effect` (none clears all).
pub open spec fn effect_clear_read(f: EffectClearForm, v: JsonView) -> bool {
    &&& f.with_slash == flag_of(v, "withSlash"@)
    &&& f.target@ == str_or_empty(v, "target"@)
    &&& same_text(f.effect, get_str(v, "effect"@))
}

/// Reads an `/effect clear` form (see `effect_clear_read`).
pub fn read_effect_clear(v: &JsonValue) -> (f: EffectClearForm)
    ensures
        effect_clear_read(f, v@),
{
    EffectClearForm {
        with_slash: flag(v, "withSlash"),
        target: string_or_empty(v, "target"),
        effect: get_string(v, "effect"),
    }
}

/// `/tp`: to an entity when `destination` is there, otherwise to coordinates (`x`, `y`, `z`,
/// `yRot`, `xRot`, `facingX`, `facingY`, `facingZ`); `withSlash`, `useTeleportAlias` and
/// `targets` either way.
pub open spec fn tp_read(f: TpForm, v: JsonView) -> bool {
    if jget(v, "destination"@) is Some {
        f matches TpForm::Entity(e) && {
            &&& e.with_slash == flag_of(v, "withSlash"@)
            &&& e.use_teleport_alias == flag_of(v, "useTeleportAlias"@)
            &&& e.targets@ == str_or_empty(v, "targets"@)
            &&& e.destination@ == str_or_empty(v, "destination"@)
        }
    } else {
        f matches TpForm::Coords(c) && {
            &&& c.with_slash == flag_of(v, "withSlash"@)
            &&& c.use_teleport_alias == flag_of(v, "useTeleportAlias"@)
            &&& c.targets@ == str_or_empty(v, "targets"@)
            &&& c.x@ == str_or_empty(v, "x"@)
            &&& c.y@ == str_or_empty(v, "y"@)
            &&& c.z@ == str_or_empty(v, "z"@)
            &&& same_text(c.y_rot, get_str(v, "yRot"@))
            &&& same_text(c.x_rot, get_str(v, "xRot"@))
            &&& same_text(c.facing_x, get_str(v, "facingX"@))
            &&& same_text(c.facing_y, get_str(v, "facingY"@))
            &&& same_text(c.facing_z, get_str(v, "facingZ"@))
        }
    }
}

/// Reads a `/tp` form (see `tp_read`).
pub fn read_tp(v: &JsonValue) -> (f: TpForm)
    ensures
        tp_read(f, v@),
{
    let with_slash = flag(v, "withSlash");
    let use_teleport_alias = flag(v, "useTeleportAlias");
    let targets = string_or_empty(v, "targets");
    if v.get("destination").is_some() {
        TpForm::Entity(
            TpEntityForm { with_slash, use_teleport_alias, targets, destination: string_or_empty(v, "destination") },
        )
    } else {
        TpForm::Coords(
            TpCoordsForm {
                with_slash,
                use_teleport_alias,
                targets,
                x: string_or_empty(v, "x"),
                y: string_or_empty(v, "y"),
                z: string_or_empty(v, "z"),
                y_rot: get_string(v, "yRot"),
                x_rot: get_string(v, "xRot"),
                facing_x: get_string(v, "facingX"),
                facing_y: get_string(v, "facingY"),
                facing_z: get_string(v, "facingZ"),
            },
        )
    }
}

/// A block filter: `{block, blockstate?}` when the member is an object.
pub open spec fn filter_read(f: Option<BlockFilter>, v: JsonView, k: Seq<char>) -> bool {
    match jget(v, k) {
        Some(x) => if x is Object {
            f matches Some(b) && b.block@ == str_or_empty(x, "block"@) && same_text(b.blockstate, get_str(x, "blockstate"@))
        } else {
            f is None
        },
        None => f is None,
    }
}

fn read_filter(v: &JsonValue, k: &str) -> (f: Option<BlockFilter>)
    ensures
        filter_read(f, v@, k@),
{
    match v.get(k) {
        Some(x) => if x.is_object() {
            Some(BlockFilter { block: string_or_empty(x, "block"), blockstate: get_string(x, "blockstate") })
        } else {
            None
        },
        None => None,
    }
}

/// A fill mode by its name.
pub open spec fn fill_mode_of(s: Option<Seq<char>>) -> Option<FillMode> {
    match s {
        Some(t) => if t == "replace"@ {
            Some(FillMode::Replace)
        } else if t == "destroy"@ {
            Some(FillMode::Destroy)
        } else if t == "hollow"@ {
            Some(FillMode::Hollow)
        } else if t == "keep"@ {
            Some(FillMode::Keep)
        } else if t == "outline"@ {
            Some(FillMode::Outline)
        } else {
            None
        },
        None => None,
    }
}

fn read_fill_mode(v: &JsonValue) -> (m: Option<FillMode>)
    ensures
        m == fill_mode_of(get_str(v@, "mode"@)),
{
    match get_string(v, "mode") {
        Some(t) => {
            let t = t.as_str();
            if str_eq(t, "replace") {
                Some(FillMode::Replace)
            } else if str_eq(t, "destroy") {
                Some(FillMode::Destroy)
            } else if str_eq(t, "hollow") {
                Some(FillMode::Hollow)
            } else if str_eq(t, "keep") {
                Some(FillMode::Keep)
            } else if str_eq(t, "outline") {
                Some(FillMode::Outline)
            } else {
                None
            }
        },
        None => None,
    }
}

/// Three coordinates read from an array member.
pub open spec fn coords_read(c: [String; 3], v: JsonView, k: Seq<char>) -> bool {
    &&& c@[0]@ == coord_at(v, k, 0)
    &&& c@[1]@ == coord_at(v, k, 1)
    &&& c@[2]@ == coord_at(v, k, 2)
}

/// `/fill`: `withSlash`, `from`, `to`, `block`, `blockstate`, `nbt`, `mode`, `replaceFilter`.
pub open spec fn fill_read(f: FillForm, v: JsonView) -> bool {
    &&& f.with_slash == flag_of(v, "withSlash"@)
    &&& coords_read(f.from, v, "from"@)
    &&& coords_read(f.to, v, "to"@)
    &&& f.block@ == str_or_empty(v, "block"@)
    &&& same_text(f.blockstate, get_str(v, "blockstate"@))
    &&& same_text(f.nbt, get_str(v, "nbt"@))
    &&& f.mode == fill_mode_of(get_str(v, "mode"@))
    &&& filter_read(f.replace_filter, v, "replaceFilter"@)
}

/// Reads a `/fill` form (see `fill_read`).
pub fn read_fill(v: &JsonValue) -> (f: FillForm)
    ensures
        fill_read(f, v@),
{
    FillForm {
        with_slash: flag(v, "withSlash"),
        from: coords3(v, "from"),
        to: coords3(v, "to"),
        block: string_or_empty(v, "block"),
        blockstate: get_string(v, "blockstate"),
        nbt: get_string(v, "nbt"),
        mode: read_fill_mode(v),
        replace_filter: read_filter(v, "replaceFilter"),
    }
}

/// A clone mask mode by its name.
pub open spec fn mask_mode_of(s: Option<Seq<char>>) -> Option<CloneMaskMode> {
    match s {
        Some(t) => if t == "replace"@ {
            Some(CloneMaskMode::Replace)
        } else if t == "masked"@ {
            Some(CloneMaskMode::Masked)
        } else if t == "filtered"@ {
            Some(CloneMaskMode::Filtered)
        } else {
            None
        },
        None => None,
    }
}

/// A clone mode by its name.
pub open spec fn clone_mode_of(s: Option<Seq<char>>) -> Option<CloneMode> {
    match s {
        Some(t) => if t == "normal"@ {
            Some(CloneMode::Normal)
        } else if t == "force"@ {
            Some(CloneMode::Force)
        } else if t == "move"@ {
            Some(CloneMode::Move)
        } else {
            None
        },
        None => None,
    }
}

fn read_mask_mode(v: &JsonValue) -> (m: Option<CloneMaskMode>)
    ensures
        m == mask_mode_of(get_str(v@, "maskMode"@)),
{
    match get_string(v, "maskMode") {
        Some(t) => {
            let t = t.as_str();
            if str_eq(t, "replace") {
                Some(CloneMaskMode::Replace)
            } else if str_eq(t, "masked") {
                Some(CloneMaskMode::Masked)
            } else if str_eq(t, "filtered") {
                Some(CloneMaskMode::Filtered)
            } else {
                None
            }
        },
        None => None,
    }
}

fn read_clone_mode(v: &JsonValue) -> (m: Option<CloneMode>)
    ensures
        m == clone_mode_of(get_str(v@, "cloneMode"@)),
{
    match get_string(v, "cloneMode") {
        Some(t) => {
            let t = t.as_str();
            if str_eq(t, "normal") {
                Some(CloneMode::Normal)
            } else if str_eq(t, "force") {
                Some(CloneMode::Force)
            } else if str_eq(t, "move") {
                Some(CloneMode::Move)
            } else {
                None
            }
        },
        None => None,
    }
}

/// `/clone`: `withSlash`, `fromDimension`, `begin`, `end`, `toDimension`, `destination`,
/// `maskMode`, `filter`, `cloneMode`.
pub open spec fn clone_read(f: CloneForm, v: JsonView) -> bool {
    &&& f.with_slash == flag_of(v, "withSlash"@)
    &&& same_text(f.from_dimension, get_str(v, "fromDimension"@))
    &&& coords_read(f.begin, v, "begin"@)
    &&& coords_read(f.end, v, "end"@)
    &&& same_text(f.to_dimension, get_str(v, "toDimension"@))
    &&& coords_read(f.destination, v, "destination"@)
    &&& f.mask_mode == mask_mode_of(get_str(v, "maskMode"@))
    &&& filter_read(f.filter, v, "filter"@)
    &&& f.clone_mode == clone_mode_of(get_str(v, "cloneMode"@))
}

/// Reads a `/clone` form (see `clone_read`).
pub fn read_clone(v: &JsonValue) -> (f: CloneForm)
    ensures
        clone_read(f, v@),
{
    CloneForm {
        with_slash: flag(v, "withSlash"),
        from_dimension: get_string(v, "fromDimension"),
        begin: coords3(v, "begin"),
        end: coords3(v, "end"),
        to_dimension: get_string(v, "toDimension"),
        destination: coords3(v, "destination"),
        mask_mode: read_mask_mode(v),
        filter: read_filter(v, "filter"),
        clone_mode: read_clone_mode(v),
    }
}

/// The items of an array member as texts, a non-string item as empty text.
pub open spec fn texts_at(v: JsonView, k: Seq<char>) -> Seq<Seq<char>> {
    let a = items_at(v, k);
    Seq::new(a.len(), |i: int| text_or_empty(a[i]))
}

fn read_texts(v: &JsonValue, k: &str) -> (out: Vec<String>)
    ensures
        texts(out@) == texts_at(v@, k@),
{
    let mut out: Vec<String> = Vec::new();
    match array_at(v, k) {
        Some(a) => {
            proof {
                lemma_views(a@);
            }
            let mut i: usize = 0;
            while i < a.len()
                invariant
                    i <= a@.len(),
                    items_at(v@, k@) == crate::give::json::views(a@),
                    crate::give::json::views(a@).len() == a@.len(),
                    forall|j: int| 0 <= j < a@.len() ==> #[trigger] crate::give::json::views(a@)[j] == a@[j]@,
                    texts(out@) == Seq::new(i as nat, |j: int| text_or_empty(items_at(v@, k@)[j])),
                decreases a@.len() - i,
            {
                let t = text_of(&a[i]);
                push_text(&mut out, t);
                assert(texts(out@) =~= Seq::new((i + 1) as nat, |j: int| text_or_empty(items_at(v@, k@)[j])));
                i = i + 1;
            }
        },
        None => {},
    }
    assert(texts(out@) =~= texts_at(v@, k@));
    out
}

/// `/execute`: `withSlash`, `subcommands` (a non-string one is empty), `run`, `loop`.
pub open spec fn execute_read(f: ExecuteForm, v: JsonView) -> bool {
    &&& f.with_slash == flag_of(v, "withSlash"@)
    &&& texts(f.subcommands@) == texts_at(v, "subcommands"@)
    &&& same_text(f.run, get_str(v, "run"@))
    &&& f.repeat == flag_of(v, "loop"@)
}

/// Reads an `/execute` form (see `execute_read`).
pub fn read_execute(v: &JsonValue) -> (f: ExecuteForm)
    ensures
        execute_read(f, v@),
{
    ExecuteForm {
        with_slash: flag(v, "withSlash"),
        subcommands: read_texts(v, "subcommands"),
        run: get_string(v, "run"),
        repeat: flag(v, "loop"),
    }
}

/// A particle mode by its name.
pub open spec fn particle_mode_of(s: Option<Seq<char>>) -> Option<ParticleMode> {
    match s {
        Some(t) => if t == "force"@ {
            Some(ParticleMode::Force)
        } else if t == "normal"@ {
            Some(ParticleMode::Normal)
        } else {
            None
        },
        None => None,
    }
}

fn read_particle_mode(v: &JsonValue) -> (m: Option<ParticleMode>)
    ensures
        m == particle_mode_of(get_str(v@, "mode"@)),
{
    match get_string(v, "mode") {
        Some(t) => {
            let t = t.as_str();
            if str_eq(t, "force") {
                Some(ParticleMode::Force)
            } else if str_eq(t, "normal") {
                Some(ParticleMode::Normal)
            } else {
                None
            }
        },
        None => None,
    }
}

/// `/particle`: `withSlash`, `name`, `x`, `y`, `z`, `dx`, `dy`, `dz`, `speed` (numbers only),
/// `count`, `mode`, `viewers`.
pub open spec fn particle_read(f: ParticleForm, v: JsonView) -> bool {
    &&& f.with_slash == flag_of(v, "withSlash"@)
    &&& f.name@ == str_or_empty(v, "name"@)
    &&& same_text(f.x, get_str(v, "x"@))
    &&& same_text(f.y, get_str(v, "y"@))
    &&& same_text(f.z, get_str(v, "z"@))
    &&& f.dx == number_at(v, "dx"@)
    &&& f.dy == number_at(v, "dy"@)
    &&& f.dz == number_at(v, "dz"@)
    &&& f.speed == number_at(v, "speed"@)
    &&& f.count == int_at(v, "count"@)
    &&& f.mode == particle_mode_of(get_str(v, "mode"@))
    &&& same_text(f.viewers, get_str(v, "viewers"@))
}

/// Reads a `/particle` form (see `particle_read`).
pub fn read_particle(v: &JsonValue) -> (f: ParticleForm)
    ensures
        particle_read(f, v@),
{
    ParticleForm {
        with_slash: flag(v, "withSlash"),
        name: string_or_empty(v, "name"),
        x: get_string(v, "x"),
        y: get_string(v, "y"),
        z: get_string(v, "z"),
        dx: opt_number(v, "dx"),
        dy: opt_number(v, "dy"),
        dz: opt_number(v, "dz"),
        speed: opt_number(v, "speed"),
        count: opt_int(v, "count"),
        mode: read_particle_mode(v),
        viewers: get_string(v, "viewers"),
    }
}

} // verus!
