//! `/tp` (`/teleport`), the same in every version: to coordinates (absolute, `~` relative or
//! `^` local), optionally with a rotation or facing a point, or to an entity.

use vstd::prelude::*;
use crate::give::builder::{finish_command, slashed};
use crate::text::push_str;

verus! {

/// Teleport to coordinates, optionally turned (`y_rot` and `x_rot`) or facing a point
/// (all three of `facing_*`, which wins over the rotation).
#[derive(Clone, Debug, Default)]
pub struct TpCoordsForm {
    pub with_slash: bool,
    /// Use the `teleport` alias instead of `tp`.
    pub use_teleport_alias: bool,
    pub targets: String,
    pub x: String,
    pub y: String,
    pub z: String,
    pub y_rot: Option<String>,
    pub x_rot: Option<String>,
    pub facing_x: Option<String>,
    pub facing_y: Option<String>,
    pub facing_z: Option<String>,
}

/// Teleport to an entity or player.
#[derive(Clone, Debug, Default)]
pub struct TpEntityForm {
    pub with_slash: bool,
    pub use_teleport_alias: bool,
    pub targets: String,
    pub destination: String,
}

/// A `/tp` intent.
#[derive(Clone, Debug)]
pub enum TpForm {
    Coords(TpCoordsForm),
    Entity(TpEntityForm),
}

/// `tp` or `teleport`.
pub open spec fn verb(alias: bool) -> Seq<char> {
    if alias {
        "teleport"@
    } else {
        "tp"@
    }
}

/// The text of a teleport to coordinates (without the slash).
pub open spec fn tp_coords_spec(f: TpCoordsForm) -> Seq<char> {
    let base = verb(f.use_teleport_alias) + " "@ + f.targets@ + " "@ + f.x@ + " "@ + f.y@ + " "@ + f.z@;
    match (f.facing_x, f.facing_y, f.facing_z) {
        (Some(fx), Some(fy), Some(fz)) => base + " facing "@ + fx@ + " "@ + fy@ + " "@ + fz@,
        _ => match (f.y_rot, f.x_rot) {
            (Some(yr), Some(xr)) => base + " "@ + yr@ + " "@ + xr@,
            _ => base,
        },
    }
}

/// The text of a teleport to an entity (without the slash).
pub open spec fn tp_entity_spec(f: TpEntityForm) -> Seq<char> {
    verb(f.use_teleport_alias) + " "@ + f.targets@ + " "@ + f.destination@
}

/// The text of a `/tp` intent.
pub open spec fn tp_spec(form: TpForm) -> Seq<char> {
    match form {
        TpForm::Coords(f) => slashed(f.with_slash, tp_coords_spec(f)),
        TpForm::Entity(f) => slashed(f.with_slash, tp_entity_spec(f)),
    }
}

fn push_verb(s: &mut String, alias: bool)
    ensures
        final(s)@ == old(s)@ + verb(alias),
{
    if alias {
        push_str(s, "teleport");
    } else {
        push_str(s, "tp");
    }
}

fn build_tp_to_coords(f: &TpCoordsForm) -> (s: String)
    ensures
        s@ == tp_coords_spec(*f),
{
    let mut s = String::new();
    push_verb(&mut s, f.use_teleport_alias);
    push_str(&mut s, " ");
    push_str(&mut s, f.targets.as_str());
    push_str(&mut s, " ");
    push_str(&mut s, f.x.as_str());
    push_str(&mut s, " ");
    push_str(&mut s, f.y.as_str());
    push_str(&mut s, " ");
    push_str(&mut s, f.z.as_str());
    match (&f.facing_x, &f.facing_y, &f.facing_z) {
        (Some(fx), Some(fy), Some(fz)) => {
            push_str(&mut s, " facing ");
            push_str(&mut s, fx.as_str());
            push_str(&mut s, " ");
            push_str(&mut s, fy.as_str());
            push_str(&mut s, " ");
            push_str(&mut s, fz.as_str());
            return s;
        },
        _ => {},
    }
    match (&f.y_rot, &f.x_rot) {
        (Some(yr), Some(xr)) => {
            push_str(&mut s, " ");
            push_str(&mut s, yr.as_str());
            push_str(&mut s, " ");
            push_str(&mut s, xr.as_str());
        },
        _ => {},
    }
    s
}

fn build_tp_to_entity(f: &TpEntityForm) -> (s: String)
    ensures
        s@ == tp_entity_spec(*f),
{
    let mut s = String::new();
    push_verb(&mut s, f.use_teleport_alias);
    push_str(&mut s, " ");
    push_str(&mut s, f.targets.as_str());
    push_str(&mut s, " ");
    push_str(&mut s, f.destination.as_str());
    s
}

/// Builds a `/tp` command (see `tp_spec`).
pub fn build_tp_command(form: &TpForm) -> (s: String)
    ensures
        s@ == tp_spec(*form),
{
    match form {
        TpForm::Entity(f) => finish_command(f.with_slash, build_tp_to_entity(f)),
        TpForm::Coords(f) => finish_command(f.with_slash, build_tp_to_coords(f)),
    }
}

} // verus!
