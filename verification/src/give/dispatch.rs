//! The dispatcher: from what the model meant (an intent, `CommandIntent`) to a command
//! string, by the deterministic builders under `commands`. The model only describes what to
//! do; it never writes the exact component or NBT syntax. An intent that cannot be built, or
//! that names an id missing from the official catalogs, is reported rather than emitted.
//!
//! The form of an intent stays loose JSON: the model leaves fields out and gets types wrong,
//! and each command reads what it needs with defaults (see `fields`).

pub mod actions;
pub mod check;
pub mod entity;
pub mod fields;
pub mod forms;

use vstd::prelude::*;
use crate::give::builder::{json_quoted, quote, slashed, tag_of, GiveVersion};
use crate::give::catalog::{catalog_miss, catalog_miss_spec, particle_id_only, particle_id_spec, GiveCatalogs};
use crate::give::commands::attribute::{attribute_spec, build_attribute_command, AttributeForm};
use crate::give::commands::clone::{build_clone_command, clone_spec, CloneForm};
use crate::give::commands::effect::{
    build_effect_clear_command, build_effect_give_command, effect_clear_spec, effect_give_spec, EffectClearForm,
    EffectGiveForm,
};
use crate::give::commands::enchant::{build_enchant_command, enchant_spec, EnchantForm};
use crate::give::commands::execute::{build_execute_command, execute_spec, ExecuteForm};
use crate::give::commands::fill::{build_fill_command, fill_spec, FillForm};
use crate::give::commands::particle::{build_particle_command, particle_spec, ParticleForm};
use crate::give::commands::say::{build_say_command, SayForm};
use crate::give::commands::scoreboard::{build_scoreboard_command, scoreboard_text, ScoreboardAction, ScoreboardForm};
use crate::give::commands::setblock::{build_setblock_command, setblock_spec, SetblockForm};
use crate::give::commands::summon::{build_summon_command, summon_spec, SummonForm};
use crate::give::commands::tp::{build_tp_command, tp_spec, TpForm};
use crate::give::dispatch::actions::{
    attribute_action_read, parse_attribute_action, parse_scoreboard_action, scoreboard_action_read,
};
use crate::give::dispatch::check::{
    container_miss, criteria_miss, equipment_miss, filter_miss, list_miss, passengers_miss,
};
use crate::give::dispatch::entity::{member_or_null, read_setblock, read_summon, setblock_read, summon_read};
use crate::give::dispatch::fields::{first_some, flag, flag_of, opt_text};
use crate::give::dispatch::forms::{
    clone_read, effect_clear_read, effect_give_read, enchant_read, execute_read, fill_read, particle_read, read_clone,
    read_effect_clear, read_effect_give, read_enchant, read_execute, read_fill, read_particle, read_say, read_tp,
    say_read, tp_read,
};
use crate::give::form::{form_read, normalize_form, GiveForm};
use crate::give::item::{build_give_command, fresh_ids, give_spec, serial_after, wanted_ids, GiveTables};
use crate::give::json::{
    copy_members, get_str, get_string, jget, lemma_member_views, member_views, string_or_empty, texts, JsonValue, JsonView,
};
use crate::text::{push_str, string_from};

verus! {

/// An intent from the model: the command and its form, which may be incomplete. A command
/// the dispatcher does not know is kept with its name, to be reported.
#[derive(Debug)]
pub enum CommandIntent {
    Give(JsonValue),
    Say(JsonValue),
    EffectGive(JsonValue),
    EffectClear(JsonValue),
    Tp(JsonValue),
    Setblock(JsonValue),
    Summon(JsonValue),
    Fill(JsonValue),
    Clone(JsonValue),
    Enchant(JsonValue),
    Execute(JsonValue),
    Scoreboard(JsonValue),
    Attribute(JsonValue),
    Particle(JsonValue),
    Unknown(String, JsonValue),
}

/// The command names the dispatcher knows.
pub open spec fn known_command(c: Seq<char>) -> bool {
    ||| c == "give"@
    ||| c == "say"@
    ||| c == "effect_give"@
    ||| c == "effect_clear"@
    ||| c == "tp"@
    ||| c == "setblock"@
    ||| c == "summon"@
    ||| c == "fill"@
    ||| c == "clone"@
    ||| c == "enchant"@
    ||| c == "execute"@
    ||| c == "scoreboard"@
    ||| c == "attribute"@
    ||| c == "particle"@
}

/// The command name of an intent.
pub open spec fn intent_name(i: CommandIntent) -> Seq<char> {
    match i {
        CommandIntent::Give(_) => "give"@,
        CommandIntent::Say(_) => "say"@,
        CommandIntent::EffectGive(_) => "effect_give"@,
        CommandIntent::EffectClear(_) => "effect_clear"@,
        CommandIntent::Tp(_) => "tp"@,
        CommandIntent::Setblock(_) => "setblock"@,
        CommandIntent::Summon(_) => "summon"@,
        CommandIntent::Fill(_) => "fill"@,
        CommandIntent::Clone(_) => "clone"@,
        CommandIntent::Enchant(_) => "enchant"@,
        CommandIntent::Execute(_) => "execute"@,
        CommandIntent::Scoreboard(_) => "scoreboard"@,
        CommandIntent::Attribute(_) => "attribute"@,
        CommandIntent::Particle(_) => "particle"@,
        CommandIntent::Unknown(name, _) => name@,
    }
}

/// The form of an intent.
pub open spec fn intent_form(i: CommandIntent) -> JsonValue {
    match i {
        CommandIntent::Give(f) => f,
        CommandIntent::Say(f) => f,
        CommandIntent::EffectGive(f) => f,
        CommandIntent::EffectClear(f) => f,
        CommandIntent::Tp(f) => f,
        CommandIntent::Setblock(f) => f,
        CommandIntent::Summon(f) => f,
        CommandIntent::Fill(f) => f,
        CommandIntent::Clone(f) => f,
        CommandIntent::Enchant(f) => f,
        CommandIntent::Execute(f) => f,
        CommandIntent::Scoreboard(f) => f,
        CommandIntent::Attribute(f) => f,
        CommandIntent::Particle(f) => f,
        CommandIntent::Unknown(_, f) => f,
    }
}

impl CommandIntent {
    /// The command name (`give`, `summon`, ..., or the unknown name as given).
    pub fn command_name(&self) -> (s: &str)
        ensures
            s@ == intent_name(*self),
    {
        match self {
            CommandIntent::Give(_) => "give",
            CommandIntent::Say(_) => "say",
            CommandIntent::EffectGive(_) => "effect_give",
            CommandIntent::EffectClear(_) => "effect_clear",
            CommandIntent::Tp(_) => "tp",
            CommandIntent::Setblock(_) => "setblock",
            CommandIntent::Summon(_) => "summon",
            CommandIntent::Fill(_) => "fill",
            CommandIntent::Clone(_) => "clone",
            CommandIntent::Enchant(_) => "enchant",
            CommandIntent::Execute(_) => "execute",
            CommandIntent::Scoreboard(_) => "scoreboard",
            CommandIntent::Attribute(_) => "attribute",
            CommandIntent::Particle(_) => "particle",
            CommandIntent::Unknown(name, _) => name.as_str(),
        }
    }

    /// The form.
    pub fn form(&self) -> (f: &JsonValue)
        ensures
            *f == intent_form(*self),
    {
        match self {
            CommandIntent::Give(f) => f,
            CommandIntent::Say(f) => f,
            CommandIntent::EffectGive(f) => f,
            CommandIntent::EffectClear(f) => f,
            CommandIntent::Tp(f) => f,
            CommandIntent::Setblock(f) => f,
            CommandIntent::Summon(f) => f,
            CommandIntent::Fill(f) => f,
            CommandIntent::Clone(f) => f,
            CommandIntent::Enchant(f) => f,
            CommandIntent::Execute(f) => f,
            CommandIntent::Scoreboard(f) => f,
            CommandIntent::Attribute(f) => f,
            CommandIntent::Particle(f) => f,
            CommandIntent::Unknown(_, f) => f,
        }
    }

    /// The intent of a command name and a form: the known command of that name, or an
    /// unknown one that keeps the name. Its name is always the one given.
    pub fn new(command: &str, form: JsonValue) -> (r: Self)
        ensures
            intent_name(r) == command@,
            intent_form(r) == form,
            (r is Unknown) == !known_command(command@),
    {
        proof {
            reveal_strlit("give");
            reveal_strlit("say");
            reveal_strlit("effect_give");
            reveal_strlit("effect_clear");
            reveal_strlit("tp");
            reveal_strlit("setblock");
            reveal_strlit("summon");
            reveal_strlit("fill");
            reveal_strlit("clone");
            reveal_strlit("enchant");
            reveal_strlit("execute");
            reveal_strlit("scoreboard");
            reveal_strlit("attribute");
            reveal_strlit("particle");
        }
        if crate::text::str_eq(command, "give") {
            CommandIntent::Give(form)
        } else if crate::text::str_eq(command, "say") {
            CommandIntent::Say(form)
        } else if crate::text::str_eq(command, "effect_give") {
            CommandIntent::EffectGive(form)
        } else if crate::text::str_eq(command, "effect_clear") {
            CommandIntent::EffectClear(form)
        } else if crate::text::str_eq(command, "tp") {
            CommandIntent::Tp(form)
        } else if crate::text::str_eq(command, "setblock") {
            CommandIntent::Setblock(form)
        } else if crate::text::str_eq(command, "summon") {
            CommandIntent::Summon(form)
        } else if crate::text::str_eq(command, "fill") {
            CommandIntent::Fill(form)
        } else if crate::text::str_eq(command, "clone") {
            CommandIntent::Clone(form)
        } else if crate::text::str_eq(command, "enchant") {
            CommandIntent::Enchant(form)
        } else if crate::text::str_eq(command, "execute") {
            CommandIntent::Execute(form)
        } else if crate::text::str_eq(command, "scoreboard") {
            CommandIntent::Scoreboard(form)
        } else if crate::text::str_eq(command, "attribute") {
            CommandIntent::Attribute(form)
        } else if crate::text::str_eq(command, "particle") {
            CommandIntent::Particle(form)
        } else {
            CommandIntent::Unknown(string_from(command), form)
        }
    }
}

/// The result of dispatching one intent.
#[derive(Debug)]
pub struct DispatchResult {
    /// The intent, for display and debugging.
    pub intent: CommandIntent,
    /// The command; none on failure.
    pub command: Option<String>,
    /// Why it failed; none on success.
    pub error: Option<String>,
    /// The command must run every tick (only an `execute` intent with `loop` set): it is
    /// deployed as a repeating job rather than copied once.
    pub repeat: bool,
}

/// The tables `/give` maps names through.
pub open spec fn tables_of(cats: GiveCatalogs) -> GiveTables {
    GiveTables {
        items: cats.items,
        blocks: cats.blocks,
        enchants: cats.enchants,
        attributes: cats.attributes,
        bedrock_items: cats.bedrock_items,
        bedrock_blocks: cats.bedrock_blocks,
    }
}

/// The refusal of an intent by the catalogs, by command: ids of items, blocks, entities,
/// enchantments, effects, attributes and particles, and the items named in scoreboard
/// criteria. `say`, `tp`, `execute` and unknown commands have nothing to check.
pub open spec fn catalog_error(intent: CommandIntent, version: GiveVersion, cats: GiveCatalogs) -> Option<Seq<char>> {
    let v = intent_form(intent)@;
    match intent {
        CommandIntent::Give(_) => first_some(
            catalog_miss_spec("物品"@, get_str(v, "item"@), cats.items_for(version)),
            list_miss("附魔"@, jget(v, "enchantments"@), cats.enchants@),
        ),
        CommandIntent::Setblock(_) => first_some(
            catalog_miss_spec("方块"@, get_str(v, "block"@), cats.blocks_for(version)),
            match jget(v, "containerItems"@) {
                Some(JsonView::Array(a)) => container_miss(a, cats.items_for(version), cats.enchants@),
                _ => None,
            },
        ),
        CommandIntent::Fill(_) => first_some(
            catalog_miss_spec("方块"@, get_str(v, "block"@), cats.blocks_for(version)),
            filter_miss("替换过滤方块"@, jget(v, "replaceFilter"@), cats.blocks_for(version)),
        ),
        CommandIntent::Clone(_) => filter_miss("克隆过滤方块"@, jget(v, "filter"@), cats.blocks_for(version)),
        CommandIntent::Enchant(_) => catalog_miss_spec("附魔"@, get_str(v, "enchantment"@), cats.enchants@),
        CommandIntent::EffectGive(_) => catalog_miss_spec("药水效果"@, get_str(v, "effect"@), cats.effects@),
        CommandIntent::EffectClear(_) => catalog_miss_spec("药水效果"@, get_str(v, "effect"@), cats.effects@),
        CommandIntent::Attribute(_) => catalog_miss_spec("属性"@, get_str(v, "attribute"@), cats.attributes@),
        CommandIntent::Scoreboard(_) => criteria_miss(
            match jget(v, "action"@) {
                Some(a) => jget(a, "criteria"@),
                None => None,
            },
            cats.items_for(version),
        ),
        CommandIntent::Summon(_) => first_some(
            catalog_miss_spec("实体类型"@, get_str(v, "entityType"@), cats.entities_for(version)),
            first_some(
                list_miss("药水效果"@, jget(v, "effects"@), cats.effects@),
                first_some(
                    equipment_miss(jget(v, "equipment"@), cats.items_for(version), cats.enchants@),
                    match jget(v, "passengers"@) {
                        Some(JsonView::Array(a)) => passengers_miss(a, cats.entities_for(version)),
                        _ => None,
                    },
                ),
            ),
        ),
        CommandIntent::Particle(_) => match get_str(v, "name"@) {
            Some(n) => catalog_miss_spec("粒子"@, Some(particle_id_spec(n)), cats.particles@),
            None => None,
        },
        _ => None,
    }
}

fn validate_intent_catalog(intent: &CommandIntent, version: GiveVersion, cats: &GiveCatalogs) -> (r: Option<String>)
    ensures
        opt_text(r) == catalog_error(*intent, version, *cats),
{
    let form = intent.form();
    match intent {
        CommandIntent::Give(_) => {
            let e = check::miss("物品", &get_string(form, "item"), &cats.items(version));
            if e.is_some() {
                return e;
            }
            check::first_catalog_miss_in_list("附魔", form.get("enchantments"), &cats.enchants())
        },
        CommandIntent::Setblock(_) => {
            let e = check::miss("方块", &get_string(form, "block"), &cats.blocks(version));
            if e.is_some() {
                return e;
            }
            check::container_items_catalog_miss(form.get("containerItems"), &cats.items(version), &cats.enchants())
        },
        CommandIntent::Fill(_) => {
            let e = check::miss("方块", &get_string(form, "block"), &cats.blocks(version));
            if e.is_some() {
                return e;
            }
            check::block_filter_catalog_miss("替换过滤方块", form.get("replaceFilter"), &cats.blocks(version))
        },
        CommandIntent::Clone(_) => check::block_filter_catalog_miss("克隆过滤方块", form.get("filter"), &cats.blocks(version)),
        CommandIntent::Enchant(_) => check::miss("附魔", &get_string(form, "enchantment"), &cats.enchants()),
        CommandIntent::EffectGive(_) => check::miss("药水效果", &get_string(form, "effect"), &cats.effects()),
        CommandIntent::EffectClear(_) => check::miss("药水效果", &get_string(form, "effect"), &cats.effects()),
        CommandIntent::Attribute(_) => check::miss("属性", &get_string(form, "attribute"), &cats.attributes()),
        CommandIntent::Scoreboard(_) => {
            let criteria = match form.get("action") {
                Some(a) => a.get("criteria"),
                None => None,
            };
            check::criteria_catalog_miss(criteria, &cats.items(version))
        },
        CommandIntent::Summon(_) => {
            let e = check::miss("实体类型", &get_string(form, "entityType"), &cats.entities(version));
            if e.is_some() {
                return e;
            }
            let e = check::first_catalog_miss_in_list("药水效果", form.get("effects"), &cats.effects());
            if e.is_some() {
                return e;
            }
            let e = check::equipment_catalog_miss(form.get("equipment"), &cats.items(version), &cats.enchants());
            if e.is_some() {
                return e;
            }
            check::passengers_catalog_miss(form.get("passengers"), &cats.entities(version))
        },
        CommandIntent::Particle(_) => match get_string(form, "name") {
            Some(n) => {
                let id = particle_id_only(n.as_str());
                catalog_miss("粒子", Some(id.as_str()), &cats.particles())
            },
            None => None,
        },
        _ => None,
    }
}

/// The form with `version` set to the target version: put in front of an object's members
/// (so it is the one a lookup finds), or the only member when the form is not an object.
pub open spec fn with_version(v: JsonView, version: GiveVersion) -> JsonView {
    let m = ("version"@, JsonView::String(tag_of(version)));
    match v {
        JsonView::Object(ms) => JsonView::Object(seq![m] + ms),
        _ => JsonView::Object(seq![m]),
    }
}

fn inject_version(form: &JsonValue, version: GiveVersion) -> (r: JsonValue)
    ensures
        r@ == with_version(form@, version),
{
    let m = (string_from("version"), JsonValue::String(string_from(version.tag())));
    let mut out: Vec<(String, JsonValue)> = match form {
        JsonValue::Object(ms) => copy_members(ms),
        _ => Vec::new(),
    };
    let ghost before = out@;
    out.insert(0, m);
    proof {
        reveal_strlit("version");
        lemma_member_views(out@);
        lemma_member_views(before);
        assert(member_views(out@) =~= seq![("version"@, JsonView::String(tag_of(version)))] + member_views(before));
    }
    JsonValue::Object(out)
}

/// What a `give` intent builds: the `/give` command of its form (with the target version
/// set), up to the fresh ids of attribute modifiers.
pub open spec fn give_built(v: JsonView, version: GiveVersion, cats: GiveCatalogs, out: Result<Seq<char>, Seq<char>>) -> bool {
    exists|g: GiveForm, ids: Seq<Seq<char>>|
        form_read(g, with_version(v, version)) && out == Ok::<Seq<char>, Seq<char>>(
            (#[trigger] give_spec(g, tables_of(cats), ids)).0,
        )
}

/// What a `give` intent builds, with the modifier ids it generates numbered from `start` on,
/// `end` being the counter after them (see `build_give_command`).
pub open spec fn give_built_counted(
    v: JsonView,
    version: GiveVersion,
    cats: GiveCatalogs,
    out: Result<Seq<char>, Seq<char>>,
    start: u64,
    end: u64,
) -> bool {
    exists|g: GiveForm, ids: Seq<Seq<char>>|
        {
            &&& form_read(g, with_version(v, version))
            &&& out == Ok::<Seq<char>, Seq<char>>((#[trigger] give_spec(g, tables_of(cats), ids)).0)
            &&& ids.len() == wanted_ids(g)
            &&& fresh_ids(ids, start)
            &&& end == serial_after(start, ids.len() as int)
        }
}

proof fn lemma_counted_is_built(
    v: JsonView,
    version: GiveVersion,
    cats: GiveCatalogs,
    out: Result<Seq<char>, Seq<char>>,
    start: u64,
    end: u64,
)
    requires
        give_built_counted(v, version, cats, out, start, end),
    ensures
        give_built(v, version, cats, out),
{
    let (g, ids) = choose|g: GiveForm, ids: Seq<Seq<char>>|
        {
            &&& form_read(g, with_version(v, version))
            &&& out == Ok::<Seq<char>, Seq<char>>((#[trigger] give_spec(g, tables_of(cats), ids)).0)
            &&& ids.len() == wanted_ids(g)
            &&& fresh_ids(ids, start)
            &&& end == serial_after(start, ids.len() as int)
        };
    assert(form_read(g, with_version(v, version)) && out == Ok::<Seq<char>, Seq<char>>(give_spec(g, tables_of(cats), ids).0));
}

fn build_give(form: &JsonValue, version: GiveVersion, cats: &GiveCatalogs, id_counter: &mut u64) -> (r: Result<
    String,
    String,
>)
    ensures
        match r {
            Ok(s) => give_built_counted(form@, version, *cats, Ok(s@), *old(id_counter), *final(id_counter)),
            Err(_) => false,
        },
{
    let versioned = inject_version(form, version);
    let g = normalize_form(&versioned);
    let tables = GiveTables {
        items: cats.items,
        blocks: cats.blocks,
        enchants: cats.enchants,
        attributes: cats.attributes,
        bedrock_items: cats.bedrock_items,
        bedrock_blocks: cats.bedrock_blocks,
    };
    let mut warnings: Vec<String> = Vec::new();
    let ghost w0 = warnings@;
    let ghost c0 = *id_counter;
    let s = build_give_command(&g, &tables, &mut warnings, id_counter);
    proof {
        let ids = choose|ids: Seq<Seq<char>>|
            {
                &&& s@ == give_spec(g, tables, ids).0
                &&& crate::give::json::texts(warnings@) == crate::give::json::texts(w0)
                    + crate::give::component::warnings_of(#[trigger] give_spec(g, tables, ids).1)
                &&& ids.len() == wanted_ids(g)
                &&& fresh_ids(ids, c0)
                &&& *id_counter == serial_after(c0, ids.len() as int)
            };
        assert(tables == tables_of(*cats));
        assert(form_read(g, with_version(form@, version)) && Ok::<Seq<char>, Seq<char>>(s@) == Ok::<
            Seq<char>,
            Seq<char>,
        >(give_spec(g, tables_of(*cats), ids).0));
    }
    Ok(s)
}

/// What an intent builds from its form, by command (see each command's reading of its form);
/// an unknown command is an error that quotes its name.
pub open spec fn built(intent: CommandIntent, version: GiveVersion, cats: GiveCatalogs, out: Result<Seq<char>, Seq<char>>) -> bool {
    let v = intent_form(intent)@;
    match intent {
        CommandIntent::Give(_) => give_built(v, version, cats, out),
        CommandIntent::Say(_) => exists|f: SayForm|
            #[trigger] say_read(f, v) && out == Ok::<Seq<char>, Seq<char>>(slashed(f.with_slash, "say "@ + f.message@)),
        CommandIntent::EffectGive(_) => exists|f: EffectGiveForm|
            #[trigger] effect_give_read(f, v) && out == Ok::<Seq<char>, Seq<char>>(effect_give_spec(f)),
        CommandIntent::EffectClear(_) => exists|f: EffectClearForm|
            #[trigger] effect_clear_read(f, v) && out == Ok::<Seq<char>, Seq<char>>(effect_clear_spec(f)),
        CommandIntent::Tp(_) => exists|f: TpForm| #[trigger] tp_read(f, v) && out == Ok::<Seq<char>, Seq<char>>(tp_spec(f)),
        CommandIntent::Setblock(_) => exists|f: SetblockForm|
            #[trigger] setblock_read(f, v, version) && out == Ok::<Seq<char>, Seq<char>>(setblock_spec(f)),
        CommandIntent::Summon(_) => exists|f: SummonForm|
            #[trigger] summon_read(f, v, version) && out == Ok::<Seq<char>, Seq<char>>(summon_spec(f)),
        CommandIntent::Fill(_) => exists|f: FillForm| #[trigger] fill_read(f, v) && out == Ok::<Seq<char>, Seq<char>>(fill_spec(f)),
        CommandIntent::Clone(_) => exists|f: CloneForm| #[trigger] clone_read(f, v) && out == clone_spec(f),
        CommandIntent::Enchant(_) => exists|f: EnchantForm|
            #[trigger] enchant_read(f, v) && out == Ok::<Seq<char>, Seq<char>>(enchant_spec(f)),
        CommandIntent::Execute(_) => exists|f: ExecuteForm| #[trigger] execute_read(f, v) && out == execute_spec(f),
        CommandIntent::Scoreboard(_) => scoreboard_built(v, out),
        CommandIntent::Attribute(_) => attribute_built(v, version, out),
        CommandIntent::Particle(_) => exists|f: ParticleForm|
            #[trigger] particle_read(f, v) && out == Ok::<Seq<char>, Seq<char>>(particle_spec(f)),
        CommandIntent::Unknown(name, _) => out == Err::<Seq<char>, Seq<char>>("未知指令类型: "@ + json_quoted(name@)),
    }
}

/// What a `scoreboard` intent builds: the command of its action (read from `action`, `null`
/// when missing), or the error of an unknown action kind.
pub open spec fn scoreboard_built(v: JsonView, out: Result<Seq<char>, Seq<char>>) -> bool {
    let av = member_or_null(v, "action"@);
    ||| exists|a: ScoreboardAction|
        #[trigger] scoreboard_action_read(Ok::<ScoreboardAction, String>(a), av) && out == Ok::<Seq<char>, Seq<char>>(
            slashed(flag_of(v, "withSlash"@), scoreboard_text(a)),
        )
    ||| exists|e: String|
        #[trigger] scoreboard_action_read(Err::<ScoreboardAction, String>(e), av) && out == Err::<Seq<char>, Seq<char>>(e@)
}

/// An attribute form read from an intent, with its action already read.
pub open spec fn attribute_form_read(f: AttributeForm, v: JsonView, version: GiveVersion) -> bool {
    &&& f.version == version
    &&& f.with_slash == flag_of(v, "withSlash"@)
    &&& f.target@ == crate::give::json::str_or_empty(v, "target"@)
    &&& f.attribute@ == crate::give::json::str_or_empty(v, "attribute"@)
    &&& attribute_action_read(Ok::<crate::give::commands::attribute::AttributeAction, String>(f.action), member_or_null(v, "action"@))
}

/// What an `attribute` intent builds: the command of its form, or the error of an unknown
/// action kind.
pub open spec fn attribute_built(v: JsonView, version: GiveVersion, out: Result<Seq<char>, Seq<char>>) -> bool {
    ||| exists|f: AttributeForm| #[trigger] attribute_form_read(f, v, version) && out == Ok::<Seq<char>, Seq<char>>(attribute_spec(f))
    ||| exists|e: String|
        #[trigger] attribute_action_read(Err::<crate::give::commands::attribute::AttributeAction, String>(e), member_or_null(v, "action"@))
            && out == Err::<Seq<char>, Seq<char>>(e@)
}

/// The text view of a build result.
pub open spec fn result_text(r: Result<String, String>) -> Result<Seq<char>, Seq<char>> {
    match r {
        Ok(s) => Ok(s@),
        Err(e) => Err(e@),
    }
}

fn member_value<'a>(v: &'a JsonValue, k: &str, null: &'a JsonValue) -> (r: &'a JsonValue)
    requires
        *null == JsonValue::Null,
    ensures
        r@ == member_or_null(v@, k@),
{
    match v.get(k) {
        Some(x) => x,
        None => null,
    }
}

fn build_scoreboard(form: &JsonValue) -> (r: Result<String, String>)
    ensures
        scoreboard_built(form@, result_text(r)),
{
    let null = JsonValue::Null;
    let av = member_value(form, "action", &null);
    let action = parse_scoreboard_action(av);
    match action {
        Ok(a) => {
            let f = ScoreboardForm { with_slash: flag(form, "withSlash"), action: a };
            let s = build_scoreboard_command(&f);
            assert(scoreboard_action_read(Ok::<ScoreboardAction, String>(f.action), av@));
            Ok(s)
        },
        Err(e) => {
            assert(scoreboard_action_read(Err::<ScoreboardAction, String>(e), av@));
            Err(e)
        },
    }
}

fn build_attribute(form: &JsonValue, version: GiveVersion) -> (r: Result<String, String>)
    ensures
        attribute_built(form@, version, result_text(r)),
{
    let null = JsonValue::Null;
    let av = member_value(form, "action", &null);
    let action = parse_attribute_action(av);
    match action {
        Ok(a) => {
            let f = AttributeForm {
                version,
                with_slash: flag(form, "withSlash"),
                target: string_or_empty(form, "target"),
                attribute: string_or_empty(form, "attribute"),
                action: a,
            };
            let s = build_attribute_command(&f);
            assert(attribute_form_read(f, form@, version));
            Ok(s)
        },
        Err(e) => {
            assert(attribute_action_read(Err::<crate::give::commands::attribute::AttributeAction, String>(e), av@));
            Err(e)
        },
    }
}

fn build_unknown(name: &String) -> (r: Result<String, String>)
    ensures
        result_text(r) == Err::<Seq<char>, Seq<char>>("未知指令类型: "@ + json_quoted(name@)),
{
    let mut e = string_from("未知指令类型: ");
    push_str(&mut e, quote(name.as_str()).as_str());
    Err(e)
}

fn build(intent: &CommandIntent, version: GiveVersion, cats: &GiveCatalogs, id_counter: &mut u64) -> (r: Result<
    String,
    String,
>)
    ensures
        built(*intent, version, *cats, result_text(r)),
        *intent is Give ==> give_built_counted(
            intent_form(*intent)@,
            version,
            *cats,
            result_text(r),
            *old(id_counter),
            *final(id_counter),
        ),
        !(*intent is Give) ==> *final(id_counter) == *old(id_counter),
{
    match intent {
        CommandIntent::Give(f) => {
            let r = build_give(f, version, cats, id_counter);
            proof {
                lemma_counted_is_built(f@, version, *cats, result_text(r), *old(id_counter), *id_counter);
            }
            r
        },
        CommandIntent::Say(f) => {
            let form = read_say(f);
            Ok(build_say_command(&form))
        },
        CommandIntent::EffectGive(f) => {
            let form = read_effect_give(f);
            Ok(build_effect_give_command(&form))
        },
        CommandIntent::EffectClear(f) => {
            let form = read_effect_clear(f);
            Ok(build_effect_clear_command(&form))
        },
        CommandIntent::Tp(f) => {
            let form = read_tp(f);
            Ok(build_tp_command(&form))
        },
        CommandIntent::Setblock(f) => {
            let form = read_setblock(f, version);
            Ok(build_setblock_command(&form))
        },
        CommandIntent::Summon(f) => {
            let form = read_summon(f, version);
            Ok(build_summon_command(&form))
        },
        CommandIntent::Fill(f) => {
            let form = read_fill(f);
            Ok(build_fill_command(&form))
        },
        CommandIntent::Clone(f) => {
            let form = read_clone(f);
            build_clone_command(&form)
        },
        CommandIntent::Enchant(f) => {
            let form = read_enchant(f);
            Ok(build_enchant_command(&form))
        },
        CommandIntent::Execute(f) => {
            let form = read_execute(f);
            build_execute_command(&form)
        },
        CommandIntent::Scoreboard(f) => build_scoreboard(f),
        CommandIntent::Attribute(f) => build_attribute(f, version),
        CommandIntent::Particle(f) => {
            let form = read_particle(f);
            Ok(build_particle_command(&form))
        },
        CommandIntent::Unknown(name, _) => build_unknown(name),
    }
}

/// The result of dispatching `intent`: refused by the catalogs first (no command, the
/// refusal as error); otherwise the command it builds, or the error it fails with. Only a
/// built `execute` intent with `loop` set repeats.
pub open spec fn dispatched(r: DispatchResult, intent: CommandIntent, version: GiveVersion, cats: GiveCatalogs) -> bool {
    &&& r.intent == intent
    &&& match catalog_error(intent, version, cats) {
        Some(e) => r.command is None && opt_text(r.error) == Some(e) && !r.repeat,
        None => match (r.command, r.error) {
            (Some(c), None) => built(intent, version, cats, Ok(c@)) && r.repeat == (intent is Execute && flag_of(
                intent_form(intent)@,
                "loop"@,
            )),
            (None, Some(e)) => built(intent, version, cats, Err(e@)) && !r.repeat,
            _ => false,
        },
    }
}

/// How the modifier-id counter moves while `intent` is dispatched into `r`: a built `give`
/// numbers its generated ids from `start` and leaves the counter at `end` after them; any
/// other dispatch leaves it alone.
pub open spec fn counter_moved(
    r: DispatchResult,
    intent: CommandIntent,
    version: GiveVersion,
    cats: GiveCatalogs,
    start: u64,
    end: u64,
) -> bool {
    if intent is Give && catalog_error(intent, version, cats) is None && r.command is Some {
        give_built_counted(intent_form(intent)@, version, cats, Ok(r.command->0@), start, end)
    } else {
        end == start
    }
}

/// Dispatches one intent to its builder, for the target version (see `dispatched`), with the
/// process's modifier-id counter (see `build_give_command`).
pub fn dispatch_intent(intent: CommandIntent, version: GiveVersion, cats: &GiveCatalogs, id_counter: &mut u64) -> (r:
    DispatchResult)
    ensures
        dispatched(r, intent, version, *cats),
        counter_moved(r, intent, version, *cats, *old(id_counter), *final(id_counter)),
{
    let refused = validate_intent_catalog(&intent, version, cats);
    match refused {
        Some(e) => {
            return DispatchResult { intent, command: None, error: Some(e), repeat: false };
        },
        None => {},
    }
    let is_loop = match &intent {
        CommandIntent::Execute(f) => flag(f, "loop"),
        _ => false,
    };
    let result = build(&intent, version, cats, id_counter);
    match result {
        Ok(command) => DispatchResult { intent, command: Some(command), error: None, repeat: is_loop },
        Err(err) => DispatchResult { intent, command: None, error: Some(err), repeat: false },
    }
}

/// A batch of results sorted for the client, in order within each list: the commands to run
/// once, the commands to run every tick, and one line `"<command>：<error>"` per failure.
pub open spec fn split_spec(s: Seq<DispatchResult>) -> (Seq<Seq<char>>, Seq<Seq<char>>, Seq<Seq<char>>)
    decreases s.len(),
{
    if s.len() == 0 {
        (Seq::empty(), Seq::empty(), Seq::empty())
    } else {
        let (c, l, f) = split_spec(s.drop_last());
        let x = s.last();
        match x.command {
            Some(cmd) => if x.repeat {
                (c, l.push(cmd@), f)
            } else {
                (c.push(cmd@), l, f)
            },
            None => match x.error {
                Some(e) => (c, l, f.push(intent_name(x.intent) + "："@ + e@)),
                None => (c, l, f),
            },
        }
    }
}

/// Sorts a batch of results into the commands to run once, the commands to run every tick,
/// and the failure lines, as `split_spec` says.
pub fn split_results(results: &Vec<DispatchResult>) -> (r: (Vec<String>, Vec<String>, Vec<String>))
    ensures
        (texts(r.0@), texts(r.1@), texts(r.2@)) == split_spec(results@),
{
    let mut commands: Vec<String> = Vec::new();
    let mut loop_commands: Vec<String> = Vec::new();
    let mut failures: Vec<String> = Vec::new();
    let mut i: usize = 0;
    while i < results.len()
        invariant
            i <= results@.len(),
            (texts(commands@), texts(loop_commands@), texts(failures@)) == split_spec(results@.take(i as int)),
        decreases results@.len() - i,
    {
        let x = &results[i];
        proof {
            assert(results@.take(i as int + 1).drop_last() =~= results@.take(i as int));
            assert(results@.take(i as int + 1).last() == results@[i as int]);
        }
        let ghost c0 = commands@;
        let ghost l0 = loop_commands@;
        let ghost f0 = failures@;
        match &x.command {
            Some(cmd) => {
                if x.repeat {
                    loop_commands.push(cmd.clone());
                    assert(texts(loop_commands@) =~= texts(l0).push(cmd@));
                } else {
                    commands.push(cmd.clone());
                    assert(texts(commands@) =~= texts(c0).push(cmd@));
                }
            },
            None => match &x.error {
                Some(e) => {
                    let mut line = string_from(x.intent.command_name());
                    push_str(&mut line, "：");
                    push_str(&mut line, e.as_str());
                    failures.push(line);
                    assert(texts(failures@) =~= texts(f0).push(intent_name(x.intent) + "："@ + e@));
                },
                None => {},
            },
        }
        i = i + 1;
    }
    assert(results@.take(results@.len() as int) =~= results@);
    (commands, loop_commands, failures)
}

/// The counter readings around each result of a batch: `marks[i]` before the `i`-th intent,
/// `marks[i + 1]` after it.
pub open spec fn counter_chain(
    out: Seq<DispatchResult>,
    intents: Seq<CommandIntent>,
    version: GiveVersion,
    cats: GiveCatalogs,
    marks: Seq<u64>,
) -> bool {
    &&& marks.len() == out.len() + 1
    &&& forall|i: int|
        0 <= i < out.len() ==> #[trigger] counter_moved(out[i], intents[i], version, cats, marks[i], marks[i + 1])
}

/// Dispatches a batch: one result per intent, in the same order, each failure kept to its
/// own intent; the modifier-id counter runs on from one intent to the next.
pub fn dispatch_intents(intents: Vec<CommandIntent>, version: GiveVersion, cats: &GiveCatalogs, id_counter: &mut u64) -> (out:
    Vec<DispatchResult>)
    ensures
        out@.len() == intents@.len(),
        forall|i: int| 0 <= i < intents@.len() ==> dispatched(#[trigger] out@[i], intents@[i], version, *cats),
        exists|marks: Seq<u64>|
            #[trigger] counter_chain(out@, intents@, version, *cats, marks) && marks[0] == *old(id_counter)
                && marks[out@.len() as int] == *final(id_counter),
{
    let ghost all = intents@;
    let ghost mut marks: Seq<u64> = seq![*id_counter];
    let mut rest = intents;
    let mut out: Vec<DispatchResult> = Vec::new();
    while rest.len() > 0
        invariant
            out@.len() + rest@.len() == all.len(),
            rest@ == all.subrange(out@.len() as int, all.len() as int),
            forall|i: int| 0 <= i < out@.len() ==> dispatched(#[trigger] out@[i], all[i], version, *cats),
            counter_chain(out@, all, version, *cats, marks),
            marks[0] == *old(id_counter),
            marks[out@.len() as int] == *id_counter,
        decreases rest@.len(),
    {
        let intent = rest.remove(0);
        let ghost n = out@.len() as int;
        assert(intent == all[n]);
        let r = dispatch_intent(intent, version, cats, id_counter);
        out.push(r);
        proof {
            let m0 = marks;
            marks = marks.push(*id_counter);
            assert forall|i: int| 0 <= i < out@.len() implies #[trigger] counter_moved(
                out@[i],
                all[i],
                version,
                *cats,
                marks[i],
                marks[i + 1],
            ) by {
                if i < n {
                    assert(marks[i] == m0[i] && marks[i + 1] == m0[i + 1]);
                    assert(counter_moved(out@[i], all[i], version, *cats, m0[i], m0[i + 1]));
                }
            }
        }
        assert(rest@ =~= all.subrange(out@.len() as int, all.len() as int));
    }
    out
}

} // verus!
