//! The actions of `/scoreboard` and `/attribute` intents: a `kind` and its arguments. An
//! unknown kind is an error that quotes it.

use vstd::prelude::*;
use crate::give::builder::{json_quoted, quote};
use crate::give::commands::attribute::{AttributeAction, AttributeOperation};
use crate::give::commands::scoreboard::{RenderType, ScoreboardAction, ScoreboardOperation};
use crate::give::dispatch::fields::{int_at, number_at, opt_int, opt_number, same_text};
use crate::give::json::{get_str, get_string, str_or_empty, string_or_empty, JsonValue, JsonView};
use crate::give::number::Decimal;
use crate::text::{push_str, str_eq, string_from};

verus! {

/// The refusal of an unknown action kind: `<prefix>{"kind":"<kind>"}`.
pub open spec fn unknown_kind(prefix: Seq<char>, kind: Seq<char>) -> Seq<char> {
    prefix + "{\"kind\":"@ + json_quoted(kind) + "}"@
}

fn unknown_kind_text(prefix: &str, kind: &str) -> (s: String)
    ensures
        s@ == unknown_kind(prefix@, kind@),
{
    let mut s = string_from(prefix);
    push_str(&mut s, "{\"kind\":");
    push_str(&mut s, quote(kind).as_str());
    push_str(&mut s, "}");
    s
}

/// A whole-number member, 0 when missing.
pub open spec fn int_or_zero(v: JsonView, k: Seq<char>) -> i64 {
    match int_at(v, k) {
        Some(n) => n,
        None => 0,
    }
}

fn read_int_or_zero(v: &JsonValue, k: &str) -> (n: i64)
    ensures
        n == int_or_zero(v@, k@),
{
    match opt_int(v, k) {
        Some(n) => n,
        None => 0,
    }
}

/// A scoreboard operation by its symbol; `=` for anything unknown.
pub open spec fn score_operation_of(s: Option<Seq<char>>) -> ScoreboardOperation {
    match s {
        Some(t) => if t == "+="@ {
            ScoreboardOperation::Add
        } else if t == "-="@ {
            ScoreboardOperation::Sub
        } else if t == "*="@ {
            ScoreboardOperation::Mul
        } else if t == "/="@ {
            ScoreboardOperation::Div
        } else if t == "%="@ {
            ScoreboardOperation::Mod
        } else if t == "<"@ {
            ScoreboardOperation::Lt
        } else if t == ">"@ {
            ScoreboardOperation::Gt
        } else if t == "><"@ {
            ScoreboardOperation::Swap
        } else {
            ScoreboardOperation::Assign
        },
        None => ScoreboardOperation::Assign,
    }
}

fn read_score_operation(v: &JsonValue) -> (op: ScoreboardOperation)
    ensures
        op == score_operation_of(get_str(v@, "operation"@)),
{
    match get_string(v, "operation") {
        Some(t) => {
            let t = t.as_str();
            if str_eq(t, "+=") {
                ScoreboardOperation::Add
            } else if str_eq(t, "-=") {
                ScoreboardOperation::Sub
            } else if str_eq(t, "*=") {
                ScoreboardOperation::Mul
            } else if str_eq(t, "/=") {
                ScoreboardOperation::Div
            } else if str_eq(t, "%=") {
                ScoreboardOperation::Mod
            } else if str_eq(t, "<") {
                ScoreboardOperation::Lt
            } else if str_eq(t, ">") {
                ScoreboardOperation::Gt
            } else if str_eq(t, "><") {
                ScoreboardOperation::Swap
            } else {
                ScoreboardOperation::Assign
            }
        },
        None => ScoreboardOperation::Assign,
    }
}

/// A scoreboard action read from `{kind, ...}`: one variant per kind, its text arguments
/// empty and its numbers 0 when missing, `hearts` or else `integer` as the render type;
/// an error naming any other kind.
pub open spec fn scoreboard_action_read(r: Result<ScoreboardAction, String>, v: JsonView) -> bool {
    let kind = str_or_empty(v, "kind"@);
    let s = |k: Seq<char>| str_or_empty(v, k);
    if kind == "objectives_add"@ {
        r matches Ok(ScoreboardAction::ObjectivesAdd { objective, criteria, display_name }) && objective@ == s(
            "objective"@,
        ) && criteria@ == s("criteria"@) && same_text(display_name, get_str(v, "displayName"@))
    } else if kind == "objectives_remove"@ {
        r matches Ok(ScoreboardAction::ObjectivesRemove { objective }) && objective@ == s("objective"@)
    } else if kind == "objectives_list"@ {
        r matches Ok(ScoreboardAction::ObjectivesList)
    } else if kind == "objectives_setdisplay"@ {
        r matches Ok(ScoreboardAction::ObjectivesSetdisplay { slot, objective }) && slot@ == s("slot"@) && same_text(
            objective,
            get_str(v, "objective"@),
        )
    } else if kind == "objectives_modify_displayname"@ {
        r matches Ok(ScoreboardAction::ObjectivesModifyDisplayname { objective, display_name }) && objective@ == s(
            "objective"@,
        ) && display_name@ == s("displayName"@)
    } else if kind == "objectives_modify_rendertype"@ {
        r matches Ok(ScoreboardAction::ObjectivesModifyRendertype { objective, rendertype }) && objective@ == s(
            "objective"@,
        ) && rendertype == if get_str(v, "rendertype"@) == Some("hearts"@) {
            RenderType::Hearts
        } else {
            RenderType::Integer
        }
    } else if kind == "players_set"@ {
        r matches Ok(ScoreboardAction::PlayersSet { targets, objective, score }) && targets@ == s("targets"@)
            && objective@ == s("objective"@) && score == int_or_zero(v, "score"@)
    } else if kind == "players_add"@ {
        r matches Ok(ScoreboardAction::PlayersAdd { targets, objective, score }) && targets@ == s("targets"@)
            && objective@ == s("objective"@) && score == int_or_zero(v, "score"@)
    } else if kind == "players_remove"@ {
        r matches Ok(ScoreboardAction::PlayersRemove { targets, objective, score }) && targets@ == s("targets"@)
            && objective@ == s("objective"@) && score == int_or_zero(v, "score"@)
    } else if kind == "players_get"@ {
        r matches Ok(ScoreboardAction::PlayersGet { target, objective }) && target@ == s("target"@) && objective@
            == s("objective"@)
    } else if kind == "players_reset"@ {
        r matches Ok(ScoreboardAction::PlayersReset { targets, objective }) && targets@ == s("targets"@) && same_text(
            objective,
            get_str(v, "objective"@),
        )
    } else if kind == "players_enable"@ {
        r matches Ok(ScoreboardAction::PlayersEnable { targets, objective }) && targets@ == s("targets"@)
            && objective@ == s("objective"@)
    } else if kind == "players_list"@ {
        r matches Ok(ScoreboardAction::PlayersList { target }) && same_text(target, get_str(v, "target"@))
    } else if kind == "players_operation"@ {
        r matches Ok(ScoreboardAction::PlayersOperation { targets, objective, operation, source, source_objective })
            && targets@ == s("targets"@) && objective@ == s("objective"@) && operation == score_operation_of(
            get_str(v, "operation"@),
        ) && source@ == s("source"@) && source_objective@ == s("sourceObjective"@)
    } else {
        r matches Err(e) && e@ == unknown_kind("未知 scoreboard 动作: "@, kind)
    }
}

/// Reads a scoreboard action (see `scoreboard_action_read`).
pub fn parse_scoreboard_action(v: &JsonValue) -> (r: Result<ScoreboardAction, String>)
    ensures
        scoreboard_action_read(r, v@),
{
    let kind = string_or_empty(v, "kind");
    let k = kind.as_str();
    if str_eq(k, "objectives_add") {
        Ok(
            ScoreboardAction::ObjectivesAdd {
                objective: string_or_empty(v, "objective"),
                criteria: string_or_empty(v, "criteria"),
                display_name: get_string(v, "displayName"),
            },
        )
    } else if str_eq(k, "objectives_remove") {
        Ok(ScoreboardAction::ObjectivesRemove { objective: string_or_empty(v, "objective") })
    } else if str_eq(k, "objectives_list") {
        Ok(ScoreboardAction::ObjectivesList)
    } else if str_eq(k, "objectives_setdisplay") {
        Ok(
            ScoreboardAction::ObjectivesSetdisplay {
                slot: string_or_empty(v, "slot"),
                objective: get_string(v, "objective"),
            },
        )
    } else if str_eq(k, "objectives_modify_displayname") {
        Ok(
            ScoreboardAction::ObjectivesModifyDisplayname {
                objective: string_or_empty(v, "objective"),
                display_name: string_or_empty(v, "displayName"),
            },
        )
    } else if str_eq(k, "objectives_modify_rendertype") {
        let hearts = match get_string(v, "rendertype") {
            Some(t) => str_eq(t.as_str(), "hearts"),
            None => false,
        };
        Ok(
            ScoreboardAction::ObjectivesModifyRendertype {
                objective: string_or_empty(v, "objective"),
                rendertype: if hearts {
                    RenderType::Hearts
                } else {
                    RenderType::Integer
                },
            },
        )
    } else if str_eq(k, "players_set") {
        Ok(
            ScoreboardAction::PlayersSet {
                targets: string_or_empty(v, "targets"),
                objective: string_or_empty(v, "objective"),
                score: read_int_or_zero(v, "score"),
            },
        )
    } else if str_eq(k, "players_add") {
        Ok(
            ScoreboardAction::PlayersAdd {
                targets: string_or_empty(v, "targets"),
                objective: string_or_empty(v, "objective"),
                score: read_int_or_zero(v, "score"),
            },
        )
    } else if str_eq(k, "players_remove") {
        Ok(
            ScoreboardAction::PlayersRemove {
                targets: string_or_empty(v, "targets"),
                objective: string_or_empty(v, "objective"),
                score: read_int_or_zero(v, "score"),
            },
        )
    } else if str_eq(k, "players_get") {
        Ok(
            ScoreboardAction::PlayersGet {
                target: string_or_empty(v, "target"),
                objective: string_or_empty(v, "objective"),
            },
        )
    } else if str_eq(k, "players_reset") {
        Ok(
            ScoreboardAction::PlayersReset {
                targets: string_or_empty(v, "targets"),
                objective: get_string(v, "objective"),
            },
        )
    } else if str_eq(k, "players_enable") {
        Ok(
            ScoreboardAction::PlayersEnable {
                targets: string_or_empty(v, "targets"),
                objective: string_or_empty(v, "objective"),
            },
        )
    } else if str_eq(k, "players_list") {
        Ok(ScoreboardAction::PlayersList { target: get_string(v, "target") })
    } else if str_eq(k, "players_operation") {
        Ok(
            ScoreboardAction::PlayersOperation {
                targets: string_or_empty(v, "targets"),
                objective: string_or_empty(v, "objective"),
                operation: read_score_operation(v),
                source: string_or_empty(v, "source"),
                source_objective: string_or_empty(v, "sourceObjective"),
            },
        )
    } else {
        Err(unknown_kind_text("未知 scoreboard 动作: ", k))
    }
}

/// The number zero.
pub open spec fn decimal_zero() -> Decimal {
    Decimal { mantissa: 0, exponent: 0 }
}

/// A number member, 0 when missing or not a number.
pub open spec fn number_or_zero(v: JsonView, k: Seq<char>) -> Decimal {
    match number_at(v, k) {
        Some(d) => d,
        None => decimal_zero(),
    }
}

fn read_number_or_zero(v: &JsonValue, k: &str) -> (d: Decimal)
    ensures
        d == number_or_zero(v@, k@),
{
    match opt_number(v, k) {
        Some(d) => d,
        None => Decimal { mantissa: 0, exponent: 0 },
    }
}

/// A modifier operation by its name; `add` for anything unknown.
pub open spec fn attribute_operation_of(s: Option<Seq<char>>) -> AttributeOperation {
    if s == Some("multiply_base"@) {
        AttributeOperation::MultiplyBase
    } else if s == Some("multiply_total"@) {
        AttributeOperation::MultiplyTotal
    } else {
        AttributeOperation::Add
    }
}

fn read_attribute_operation(v: &JsonValue) -> (op: AttributeOperation)
    ensures
        op == attribute_operation_of(get_str(v@, "operation"@)),
{
    match get_string(v, "operation") {
        Some(t) => {
            if str_eq(t.as_str(), "multiply_base") {
                AttributeOperation::MultiplyBase
            } else if str_eq(t.as_str(), "multiply_total") {
                AttributeOperation::MultiplyTotal
            } else {
                AttributeOperation::Add
            }
        },
        None => AttributeOperation::Add,
    }
}

/// An attribute action read from `{kind, ...}`: `scale` when it is a number, `value` 0 when
/// it is not, text arguments empty when missing; an error naming any other kind.
pub open spec fn attribute_action_read(r: Result<AttributeAction, String>, v: JsonView) -> bool {
    let kind = str_or_empty(v, "kind"@);
    let scale = number_at(v, "scale"@);
    if kind == "get"@ {
        r == Ok::<AttributeAction, String>(AttributeAction::Get { scale })
    } else if kind == "base_get"@ {
        r == Ok::<AttributeAction, String>(AttributeAction::BaseGet { scale })
    } else if kind == "base_set"@ {
        r == Ok::<AttributeAction, String>(AttributeAction::BaseSet { value: number_or_zero(v, "value"@) })
    } else if kind == "modifier_add"@ {
        r matches Ok(AttributeAction::ModifierAdd { id, name, value, operation }) && id@ == str_or_empty(v, "id"@)
            && same_text(name, get_str(v, "name"@)) && value == number_or_zero(v, "value"@) && operation
            == attribute_operation_of(get_str(v, "operation"@))
    } else if kind == "modifier_remove"@ {
        r matches Ok(AttributeAction::ModifierRemove { id }) && id@ == str_or_empty(v, "id"@)
    } else if kind == "modifier_value_get"@ {
        r matches Ok(AttributeAction::ModifierValueGet { id, scale: sc }) && id@ == str_or_empty(v, "id"@) && sc
            == scale
    } else {
        r matches Err(e) && e@ == unknown_kind("未知 attribute 动作: "@, kind)
    }
}

/// Reads an attribute action (see `attribute_action_read`).
pub fn parse_attribute_action(v: &JsonValue) -> (r: Result<AttributeAction, String>)
    ensures
        attribute_action_read(r, v@),
{
    let kind = string_or_empty(v, "kind");
    let k = kind.as_str();
    let scale = opt_number(v, "scale");
    if str_eq(k, "get") {
        Ok(AttributeAction::Get { scale })
    } else if str_eq(k, "base_get") {
        Ok(AttributeAction::BaseGet { scale })
    } else if str_eq(k, "base_set") {
        Ok(AttributeAction::BaseSet { value: read_number_or_zero(v, "value") })
    } else if str_eq(k, "modifier_add") {
        Ok(
            AttributeAction::ModifierAdd {
                id: string_or_empty(v, "id"),
                name: get_string(v, "name"),
                value: read_number_or_zero(v, "value"),
                operation: read_attribute_operation(v),
            },
        )
    } else if str_eq(k, "modifier_remove") {
        Ok(AttributeAction::ModifierRemove { id: string_or_empty(v, "id") })
    } else if str_eq(k, "modifier_value_get") {
        Ok(AttributeAction::ModifierValueGet { id: string_or_empty(v, "id"), scale })
    } else {
        Err(unknown_kind_text("未知 attribute 动作: ", k))
    }
}

} // verus!
