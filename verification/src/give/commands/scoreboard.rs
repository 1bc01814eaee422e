//! `/scoreboard objectives ...` and `/scoreboard players ...` (1.20.5 and later). Display
//! names are text components written inline as JSON (`{"text":"x"}`), the same in every
//! supported version.

use vstd::prelude::*;
use crate::give::builder::{finish_command, slashed, text_component, text_component_spec};
use crate::text::{int_text, push_i64, push_str};

verus! {

/// The operators of `scoreboard players operation`.
#[derive(Clone, Copy, Debug, PartialEq, Eq, Structural)]
pub enum ScoreboardOperation {
    Assign,
    Add,
    Sub,
    Mul,
    Div,
    Mod,
    Lt,
    Gt,
    Swap,
}

/// The symbol of an operator.
pub open spec fn operation_text(op: ScoreboardOperation) -> Seq<char> {
    match op {
        ScoreboardOperation::Assign => "="@,
        ScoreboardOperation::Add => "+="@,
        ScoreboardOperation::Sub => "-="@,
        ScoreboardOperation::Mul => "*="@,
        ScoreboardOperation::Div => "/="@,
        ScoreboardOperation::Mod => "%="@,
        ScoreboardOperation::Lt => "<"@,
        ScoreboardOperation::Gt => ">"@,
        ScoreboardOperation::Swap => "><"@,
    }
}

impl ScoreboardOperation {
    /// The symbol of this operator.
    pub fn as_str(self) -> (s: &'static str)
        ensures
            s@ == operation_text(self),
    {
        match self {
            ScoreboardOperation::Assign => "=",
            ScoreboardOperation::Add => "+=",
            ScoreboardOperation::Sub => "-=",
            ScoreboardOperation::Mul => "*=",
            ScoreboardOperation::Div => "/=",
            ScoreboardOperation::Mod => "%=",
            ScoreboardOperation::Lt => "<",
            ScoreboardOperation::Gt => ">",
            ScoreboardOperation::Swap => "><",
        }
    }
}

/// How an objective is rendered.
#[derive(Clone, Copy, Debug, PartialEq, Eq, Structural)]
pub enum RenderType {
    Hearts,
    Integer,
}

/// The keyword of a render type.
pub open spec fn render_text(r: RenderType) -> Seq<char> {
    match r {
        RenderType::Hearts => "hearts"@,
        RenderType::Integer => "integer"@,
    }
}

impl RenderType {
    /// The keyword of this render type.
    pub fn as_str(self) -> (s: &'static str)
        ensures
            s@ == render_text(self),
    {
        match self {
            RenderType::Hearts => "hearts",
            RenderType::Integer => "integer",
        }
    }
}

/// A scoreboard action.
#[derive(Clone, Debug)]
pub enum ScoreboardAction {
    ObjectivesAdd { objective: String, criteria: String, display_name: Option<String> },
    ObjectivesRemove { objective: String },
    ObjectivesList,
    ObjectivesSetdisplay { slot: String, objective: Option<String> },
    ObjectivesModifyDisplayname { objective: String, display_name: String },
    ObjectivesModifyRendertype { objective: String, rendertype: RenderType },
    PlayersSet { targets: String, objective: String, score: i64 },
    PlayersAdd { targets: String, objective: String, score: i64 },
    PlayersRemove { targets: String, objective: String, score: i64 },
    PlayersGet { target: String, objective: String },
    PlayersReset { targets: String, objective: Option<String> },
    PlayersEnable { targets: String, objective: String },
    PlayersList { target: Option<String> },
    PlayersOperation {
        targets: String,
        objective: String,
        operation: ScoreboardOperation,
        source: String,
        source_objective: String,
    },
}

/// A `/scoreboard` intent.
#[derive(Clone, Debug)]
pub struct ScoreboardForm {
    pub with_slash: bool,
    pub action: ScoreboardAction,
}

/// ` <text>` for a non-empty optional text, nothing otherwise.
pub open spec fn optional_arg(o: Option<String>) -> Seq<char> {
    match o {
        Some(t) => if t@.len() > 0 {
            " "@ + t@
        } else {
            seq![]
        },
        None => seq![],
    }
}

/// The text of a scoreboard action (without the slash).
pub open spec fn scoreboard_text(a: ScoreboardAction) -> Seq<char> {
    match a {
        ScoreboardAction::ObjectivesAdd { objective, criteria, display_name } => "scoreboard objectives add "@
            + objective@ + " "@ + criteria@ + (match display_name {
            Some(n) => if n@.len() > 0 {
                " "@ + text_component_spec(n@)
            } else {
                seq![]
            },
            None => seq![],
        }),
        ScoreboardAction::ObjectivesRemove { objective } => "scoreboard objectives remove "@ + objective@,
        ScoreboardAction::ObjectivesList => "scoreboard objectives list"@,
        ScoreboardAction::ObjectivesSetdisplay { slot, objective } => "scoreboard objectives setdisplay "@ + slot@
            + optional_arg(objective),
        ScoreboardAction::ObjectivesModifyDisplayname { objective, display_name } => "scoreboard objectives modify "@
            + objective@ + " displayname "@ + text_component_spec(display_name@),
        ScoreboardAction::ObjectivesModifyRendertype { objective, rendertype } => "scoreboard objectives modify "@
            + objective@ + " rendertype "@ + render_text(rendertype),
        ScoreboardAction::PlayersSet { targets, objective, score } => "scoreboard players set "@ + targets@ + " "@
            + objective@ + " "@ + int_text(score as int),
        ScoreboardAction::PlayersAdd { targets, objective, score } => "scoreboard players add "@ + targets@ + " "@
            + objective@ + " "@ + int_text(score as int),
        ScoreboardAction::PlayersRemove { targets, objective, score } => "scoreboard players remove "@ + targets@
            + " "@ + objective@ + " "@ + int_text(score as int),
        ScoreboardAction::PlayersGet { target, objective } => "scoreboard players get "@ + target@ + " "@
            + objective@,
        ScoreboardAction::PlayersReset { targets, objective } => "scoreboard players reset "@ + targets@
            + optional_arg(objective),
        ScoreboardAction::PlayersEnable { targets, objective } => "scoreboard players enable "@ + targets@ + " "@
            + objective@,
        ScoreboardAction::PlayersList { target } => "scoreboard players list"@ + optional_arg(target),
        ScoreboardAction::PlayersOperation { targets, objective, operation, source, source_objective } =>
            "scoreboard players operation "@ + targets@ + " "@ + objective@ + " "@ + operation_text(operation) + " "@
            + source@ + " "@ + source_objective@,
    }
}

fn push_optional(cmd: &mut String, o: &Option<String>)
    ensures
        final(cmd)@ == old(cmd)@ + optional_arg(*o),
{
    match o {
        Some(t) => {
            if t.as_str().unicode_len() > 0 {
                push_str(cmd, " ");
                push_str(cmd, t.as_str());
            } else {
                assert(old(cmd)@ + optional_arg(*o) =~= old(cmd)@);
            }
        },
        None => {
            assert(old(cmd)@ + optional_arg(*o) =~= old(cmd)@);
        },
    }
}

fn push_words(cmd: &mut String, head: &str, a: &str, b: &str)
    ensures
        final(cmd)@ == old(cmd)@ + head@ + a@ + " "@ + b@,
{
    push_str(cmd, head);
    push_str(cmd, a);
    push_str(cmd, " ");
    push_str(cmd, b);
}

fn push_score(cmd: &mut String, head: &str, targets: &str, objective: &str, score: i64)
    ensures
        final(cmd)@ == old(cmd)@ + head@ + targets@ + " "@ + objective@ + " "@ + int_text(score as int),
{
    push_words(cmd, head, targets, objective);
    push_str(cmd, " ");
    push_i64(cmd, score);
}

fn action_text(a: &ScoreboardAction) -> (s: String)
    ensures
        s@ == scoreboard_text(*a),
{
    let mut cmd = String::new();
    match a {
        ScoreboardAction::ObjectivesAdd { objective, criteria, display_name } => {
            push_words(&mut cmd, "scoreboard objectives add ", objective.as_str(), criteria.as_str());
            match display_name {
                Some(n) => {
                    if n.as_str().unicode_len() > 0 {
                        push_str(&mut cmd, " ");
                        let t = text_component(n.as_str());
                        push_str(&mut cmd, t.as_str());
                    }
                },
                None => {},
            }
        },
        ScoreboardAction::ObjectivesRemove { objective } => {
            push_str(&mut cmd, "scoreboard objectives remove ");
            push_str(&mut cmd, objective.as_str());
        },
        ScoreboardAction::ObjectivesList => {
            push_str(&mut cmd, "scoreboard objectives list");
        },
        ScoreboardAction::ObjectivesSetdisplay { slot, objective } => {
            push_str(&mut cmd, "scoreboard objectives setdisplay ");
            push_str(&mut cmd, slot.as_str());
            push_optional(&mut cmd, objective);
        },
        ScoreboardAction::ObjectivesModifyDisplayname { objective, display_name } => {
            push_str(&mut cmd, "scoreboard objectives modify ");
            push_str(&mut cmd, objective.as_str());
            push_str(&mut cmd, " displayname ");
            let t = text_component(display_name.as_str());
            push_str(&mut cmd, t.as_str());
        },
        ScoreboardAction::ObjectivesModifyRendertype { objective, rendertype } => {
            push_str(&mut cmd, "scoreboard objectives modify ");
            push_str(&mut cmd, objective.as_str());
            push_str(&mut cmd, " rendertype ");
            push_str(&mut cmd, rendertype.as_str());
        },
        ScoreboardAction::PlayersSet { targets, objective, score } => {
            push_score(&mut cmd, "scoreboard players set ", targets.as_str(), objective.as_str(), *score);
        },
        ScoreboardAction::PlayersAdd { targets, objective, score } => {
            push_score(&mut cmd, "scoreboard players add ", targets.as_str(), objective.as_str(), *score);
        },
        ScoreboardAction::PlayersRemove { targets, objective, score } => {
            push_score(&mut cmd, "scoreboard players remove ", targets.as_str(), objective.as_str(), *score);
        },
        ScoreboardAction::PlayersGet { target, objective } => {
            push_words(&mut cmd, "scoreboard players get ", target.as_str(), objective.as_str());
        },
        ScoreboardAction::PlayersReset { targets, objective } => {
            push_str(&mut cmd, "scoreboard players reset ");
            push_str(&mut cmd, targets.as_str());
            push_optional(&mut cmd, objective);
        },
        ScoreboardAction::PlayersEnable { targets, objective } => {
            push_words(&mut cmd, "scoreboard players enable ", targets.as_str(), objective.as_str());
        },
        ScoreboardAction::PlayersList { target } => {
            push_str(&mut cmd, "scoreboard players list");
            push_optional(&mut cmd, target);
        },
        ScoreboardAction::PlayersOperation { targets, objective, operation, source, source_objective } => {
            push_words(&mut cmd, "scoreboard players operation ", targets.as_str(), objective.as_str());
            push_str(&mut cmd, " ");
            push_str(&mut cmd, operation.as_str());
            push_str(&mut cmd, " ");
            push_str(&mut cmd, source.as_str());
            push_str(&mut cmd, " ");
            push_str(&mut cmd, source_objective.as_str());
        },
    }
    assert(cmd@ =~= scoreboard_text(*a));
    cmd
}

/// Builds a `/scoreboard` command (see `scoreboard_text`).
pub fn build_scoreboard_command(form: &ScoreboardForm) -> (s: String)
    ensures
        s@ == slashed(form.with_slash, scoreboard_text(form.action)),
{
    let cmd = action_text(&form.action);
    finish_command(form.with_slash, cmd)
}

} // verus!
