//! `/attribute`: the one command with two separate version boundaries.
//!
//! The attribute id follows the entity-NBT registry: `minecraft:generic.max_health` from
//! 1.20.5 to 1.21.4, `minecraft:max_health` from 1.21.5.
//!
//! `modifier add` was rewritten in 1.21: 1.20.5/1.20.6 take
//! `modifier add <uuid> <name> <value> <add|multiply_base|multiply>`, 1.21 and later
//! `modifier add <id> <value> <add_value|add_multiplied_base|add_multiplied_total>`.
//!
//! The other subcommands are the same in every version:
//! `get|base get [<scale>]`, `base set <value>`, `modifier remove|value get <id> [<scale>]`.

use vstd::prelude::*;
use crate::give::builder::{at_least, finish_command, is_java1205_family, is_modern_nbt_family, slashed, GiveVersion};
use crate::give::catalog::{namespaced, namespaced_spec};
use crate::give::commands::nbt::{attribute_id_spec, normalize_attribute_id};
use crate::give::number::Decimal;
use crate::text::{push_str, string_from};

verus! {

/// The kind of modifier operation, whatever the version calls it.
#[derive(Clone, Copy, Debug, PartialEq, Eq, Structural)]
pub enum AttributeOperation {
    Add,
    MultiplyBase,
    MultiplyTotal,
}

/// The subcommand.
#[derive(Clone, Debug)]
pub enum AttributeAction {
    Get { scale: Option<Decimal> },
    BaseGet { scale: Option<Decimal> },
    BaseSet { value: Decimal },
    ModifierAdd {
        /// A resource id from 1.21 (`minecraft:my_buff`), a UUID in 1.20.5/1.20.6.
        id: String,
        /// Only 1.20.5/1.20.6 take a name; the id stands in when it is missing.
        name: Option<String>,
        value: Decimal,
        operation: AttributeOperation,
    },
    ModifierRemove { id: String },
    ModifierValueGet { id: String, scale: Option<Decimal> },
}

/// An `/attribute` intent.
#[derive(Clone, Debug)]
pub struct AttributeForm {
    pub version: GiveVersion,
    pub with_slash: bool,
    pub target: String,
    /// With or without `generic.` / `minecraft:`; normalised by version.
    pub attribute: String,
    pub action: AttributeAction,
}

/// The keyword of an operation: the 1.20.5 names when `legacy`, the 1.21 names otherwise.
pub open spec fn operation_keyword_spec(op: AttributeOperation, legacy: bool) -> Seq<char> {
    if legacy {
        match op {
            AttributeOperation::MultiplyTotal => "multiply"@,
            AttributeOperation::Add => "add"@,
            AttributeOperation::MultiplyBase => "multiply_base"@,
        }
    } else {
        match op {
            AttributeOperation::Add => "add_value"@,
            AttributeOperation::MultiplyBase => "add_multiplied_base"@,
            AttributeOperation::MultiplyTotal => "add_multiplied_total"@,
        }
    }
}

/// The keyword of an operation (see `operation_keyword_spec`).
pub fn operation_keyword(op: AttributeOperation, legacy: bool) -> (s: &'static str)
    ensures
        s@ == operation_keyword_spec(op, legacy),
{
    if legacy {
        return match op {
            AttributeOperation::MultiplyTotal => "multiply",
            AttributeOperation::Add => "add",
            AttributeOperation::MultiplyBase => "multiply_base",
        };
    }
    match op {
        AttributeOperation::Add => "add_value",
        AttributeOperation::MultiplyBase => "add_multiplied_base",
        AttributeOperation::MultiplyTotal => "add_multiplied_total",
    }
}

/// ` <scale>` when a scale is given.
pub open spec fn scale_text(scale: Option<Decimal>) -> Seq<char> {
    match scale {
        Some(s) => " "@ + s.fixed(),
        None => seq![],
    }
}

/// A modifier id as written: as given in 1.20.5/1.20.6 (a UUID), namespaced from 1.21.
pub open spec fn modifier_id(id: Seq<char>, legacy: bool) -> Seq<char> {
    if legacy {
        id
    } else {
        namespaced_spec(id)
    }
}

/// The subcommand's text, after the attribute id.
pub open spec fn action_text(action: AttributeAction, legacy: bool) -> Seq<char> {
    match action {
        AttributeAction::Get { scale } => " get"@ + scale_text(scale),
        AttributeAction::BaseGet { scale } => " base get"@ + scale_text(scale),
        AttributeAction::BaseSet { value } => " base set "@ + value.fixed(),
        AttributeAction::ModifierAdd { id, name, value, operation } => if legacy {
            " modifier add "@ + id@ + " "@ + (match name {
                Some(n) => n@,
                None => id@,
            }) + " "@ + value.fixed() + " "@ + operation_keyword_spec(operation, true)
        } else {
            " modifier add "@ + namespaced_spec(id@) + " "@ + value.fixed() + " "@ + operation_keyword_spec(
                operation,
                false,
            )
        },
        AttributeAction::ModifierRemove { id } => " modifier remove "@ + modifier_id(id@, legacy),
        AttributeAction::ModifierValueGet { id, scale } => " modifier value get "@ + modifier_id(id@, legacy)
            + scale_text(scale),
    }
}

/// The text of an `/attribute` intent.
pub open spec fn attribute_spec(form: AttributeForm) -> Seq<char> {
    let legacy = form.version == GiveVersion::Java1_20_5;
    let attr = attribute_id_spec(form.attribute@, !at_least(form.version, GiveVersion::Java1_21_5));
    slashed(form.with_slash, "attribute "@ + form.target@ + " "@ + attr + action_text(form.action, legacy))
}

fn push_scale(s: &mut String, scale: &Option<Decimal>)
    ensures
        final(s)@ == old(s)@ + scale_text(*scale),
{
    match scale {
        Some(v) => {
            push_str(s, " ");
            push_str(s, v.fixed_text().as_str());
        },
        None => {
            assert(old(s)@ + Seq::<char>::empty() =~= old(s)@);
        },
    }
}

fn push_modifier_id(s: &mut String, id: &String, legacy: bool)
    ensures
        final(s)@ == old(s)@ + modifier_id(id@, legacy),
{
    if legacy {
        push_str(s, id.as_str());
    } else {
        push_str(s, namespaced(id.as_str()).as_str());
    }
}

fn push_action(s: &mut String, action: &AttributeAction, legacy: bool)
    ensures
        final(s)@ == old(s)@ + action_text(*action, legacy),
{
    match action {
        AttributeAction::Get { scale } => {
            push_str(s, " get");
            push_scale(s, scale);
        },
        AttributeAction::BaseGet { scale } => {
            push_str(s, " base get");
            push_scale(s, scale);
        },
        AttributeAction::BaseSet { value } => {
            push_str(s, " base set ");
            push_str(s, value.fixed_text().as_str());
        },
        AttributeAction::ModifierAdd { id, name, value, operation } => {
            push_str(s, " modifier add ");
            if legacy {
                push_str(s, id.as_str());
                push_str(s, " ");
                match name {
                    Some(n) => push_str(s, n.as_str()),
                    None => push_str(s, id.as_str()),
                }
            } else {
                push_str(s, namespaced(id.as_str()).as_str());
            }
            push_str(s, " ");
            push_str(s, value.fixed_text().as_str());
            push_str(s, " ");
            push_str(s, operation_keyword(*operation, legacy));
        },
        AttributeAction::ModifierRemove { id } => {
            push_str(s, " modifier remove ");
            push_modifier_id(s, id, legacy);
        },
        AttributeAction::ModifierValueGet { id, scale } => {
            push_str(s, " modifier value get ");
            push_modifier_id(s, id, legacy);
            push_scale(s, scale);
        },
    }
    assert(s@ =~= old(s)@ + action_text(*action, legacy));
}

/// Builds an `/attribute` command (see `attribute_spec`).
pub fn build_attribute_command(form: &AttributeForm) -> (s: String)
    ensures
        s@ == attribute_spec(*form),
{
    let legacy = is_java1205_family(form.version);
    let attr = normalize_attribute_id(form.attribute.as_str(), !is_modern_nbt_family(form.version));
    let mut cmd = string_from("attribute ");
    push_str(&mut cmd, form.target.as_str());
    push_str(&mut cmd, " ");
    push_str(&mut cmd, attr.as_str());
    push_action(&mut cmd, &form.action, legacy);
    finish_command(form.with_slash, cmd)
}

} // verus!
