//! `/particle <name> [<pos>] [<delta> <speed> <count> [force|normal] [<viewers>]]`, the same in
//! every version.
//!
//! A particle with options carries them right after its id, with no space:
//! `minecraft:dust{color:[1.0,0.0,0.0],scale:1.0}`,
//! `minecraft:block{block_state:{Name:"minecraft:stone"}}`,
//! `minecraft:item{item:{id:"minecraft:diamond",count:1}}`. Such a particle is given whole in
//! `name`; only the part before the brace gets the `minecraft:` namespace, so the colons
//! inside the options are left alone.

use vstd::prelude::*;
use crate::give::builder::{finish_command, slashed};
use crate::give::catalog::{namespaced, namespaced_spec};
use crate::give::number::Decimal;
use crate::text::{chars_of, find_char, index_of_char, int_text, push_i64, push_range, push_str, string_from, trim, trim_spec};

verus! {

/// Who sees the particles.
#[derive(Clone, Copy, Debug, PartialEq, Eq, Structural)]
pub enum ParticleMode {
    /// Shown whatever the viewer's particle settings and distance.
    Force,
    /// Shown by the viewer's settings, within the usual distance.
    Normal,
}

impl ParticleMode {
    /// The keyword of the mode.
    pub open spec fn keyword(self) -> Seq<char> {
        match self {
            ParticleMode::Force => "force"@,
            ParticleMode::Normal => "normal"@,
        }
    }

    /// The keyword of the mode (see `keyword`).
    pub fn as_str(self) -> (s: &'static str)
        ensures
            s@ == self.keyword(),
    {
        match self {
            ParticleMode::Force => "force",
            ParticleMode::Normal => "normal",
        }
    }
}

/// A `/particle` intent.
#[derive(Clone, Debug, Default)]
pub struct ParticleForm {
    pub with_slash: bool,
    /// The particle id, with its options when it has any.
    pub name: String,
    pub x: Option<String>,
    pub y: Option<String>,
    pub z: Option<String>,
    /// The spread: the random offset radius on each axis.
    pub dx: Option<Decimal>,
    pub dy: Option<Decimal>,
    pub dz: Option<Decimal>,
    /// Speed or motion; what it means depends on the particle.
    pub speed: Option<Decimal>,
    pub count: Option<i64>,
    pub mode: Option<ParticleMode>,
    /// Only these players see the particles; everyone in range when missing.
    pub viewers: Option<String>,
}

/// The particle id, trimmed, with the namespace added to the part before the first `{`.
pub open spec fn namespaced_particle_spec(raw: Seq<char>) -> Seq<char> {
    let t = trim_spec(raw);
    match index_of_char(t, '{') {
        None => namespaced_spec(t),
        Some(i) => namespaced_spec(t.subrange(0, i)) + t.subrange(i, t.len() as int),
    }
}

/// Namespaces a particle id (see `namespaced_particle_spec`).
pub fn namespaced_particle_id(raw: &str) -> (s: String)
    ensures
        s@ == namespaced_particle_spec(raw@),
{
    let text = trim(raw);
    let v = chars_of(text.as_str());
    match find_char(&v, '{') {
        None => namespaced(text.as_str()),
        Some(i) => {
            let mut head = String::new();
            push_range(&mut head, &v, 0, i);
            assert(head@ =~= v@.subrange(0, i as int));
            let mut s = namespaced(head.as_str());
            push_range(&mut s, &v, i, v.len());
            s
        },
    }
}

/// A coordinate, `~` when missing.
pub open spec fn coord_text(c: Option<String>) -> Seq<char> {
    match c {
        Some(s) => s@,
        None => "~"@,
    }
}

/// A number, or the given default text when missing.
pub open spec fn number_or(d: Option<Decimal>, default: Seq<char>) -> Seq<char> {
    match d {
        Some(v) => v.fixed(),
        None => default,
    }
}

/// Anything past the position is given.
pub open spec fn has_extra(form: ParticleForm) -> bool {
    form.dx is Some || form.dy is Some || form.dz is Some || form.speed is Some || form.count is Some
        || form.mode is Some || form.viewers is Some
}

/// The count, 1 by default.
pub open spec fn count_or_one(count: Option<i64>) -> int {
    match count {
        Some(c) => c as int,
        None => 1,
    }
}

/// Spread (0 by default), speed (1) and count (1).
pub open spec fn motion_text(form: ParticleForm) -> Seq<char> {
    " "@ + number_or(form.dx, "0"@) + " "@ + number_or(form.dy, "0"@) + " "@ + number_or(form.dz, "0"@) + " "@
        + number_or(form.speed, "1"@) + " "@ + int_text(count_or_one(form.count))
}

/// The mode, `normal` when only viewers are given, then the viewers.
pub open spec fn audience_text(mode: Option<ParticleMode>, viewers: Option<String>) -> Seq<char> {
    (if mode is Some || viewers is Some {
        " "@ + (match mode {
            Some(m) => m,
            None => ParticleMode::Normal,
        }).keyword()
    } else {
        seq![]
    }) + (match viewers {
        Some(v) => " "@ + v@,
        None => seq![],
    })
}

/// The arguments past the position.
pub open spec fn extra_text(form: ParticleForm) -> Seq<char> {
    motion_text(form) + audience_text(form.mode, form.viewers)
}

/// The position: the three coordinates.
pub open spec fn position_text(form: ParticleForm) -> Seq<char> {
    " "@ + coord_text(form.x) + " "@ + coord_text(form.y) + " "@ + coord_text(form.z)
}

/// The text of a `/particle` intent. The position is written when all three coordinates
/// are given or when anything follows it (`~` standing for a missing one).
pub open spec fn particle_spec(form: ParticleForm) -> Seq<char> {
    let has_pos = form.x is Some && form.y is Some && form.z is Some;
    slashed(
        form.with_slash,
        "particle "@ + namespaced_particle_spec(form.name@) + (if has_pos || has_extra(form) {
            position_text(form)
        } else {
            seq![]
        }) + (if has_extra(form) {
            extra_text(form)
        } else {
            seq![]
        }),
    )
}

fn push_coord(s: &mut String, c: &Option<String>)
    ensures
        final(s)@ == old(s)@ + " "@ + coord_text(*c),
{
    push_str(s, " ");
    match c {
        Some(v) => push_str(s, v.as_str()),
        None => push_str(s, "~"),
    }
}

fn push_number(s: &mut String, d: &Option<Decimal>, default: &str)
    ensures
        final(s)@ == old(s)@ + " "@ + number_or(*d, default@),
{
    push_str(s, " ");
    match d {
        Some(v) => push_str(s, v.fixed_text().as_str()),
        None => push_str(s, default),
    }
}

fn push_motion(s: &mut String, form: &ParticleForm)
    ensures
        final(s)@ == old(s)@ + motion_text(*form),
{
    push_number(s, &form.dx, "0");
    push_number(s, &form.dy, "0");
    push_number(s, &form.dz, "0");
    push_number(s, &form.speed, "1");
    push_str(s, " ");
    let count: i64 = match form.count {
        Some(c) => c,
        None => 1,
    };
    push_i64(s, count);
    assert(s@ =~= old(s)@ + motion_text(*form));
}

fn push_audience(s: &mut String, mode: &Option<ParticleMode>, viewers: &Option<String>)
    ensures
        final(s)@ == old(s)@ + audience_text(*mode, *viewers),
{
    if mode.is_some() || viewers.is_some() {
        push_str(s, " ");
        let m = match mode {
            Some(m) => *m,
            None => ParticleMode::Normal,
        };
        push_str(s, m.as_str());
    }
    match viewers {
        Some(v) => {
            push_str(s, " ");
            push_str(s, v.as_str());
        },
        None => {},
    }
    assert(s@ =~= old(s)@ + audience_text(*mode, *viewers));
}

fn push_position(s: &mut String, form: &ParticleForm)
    ensures
        final(s)@ == old(s)@ + position_text(*form),
{
    push_coord(s, &form.x);
    push_coord(s, &form.y);
    push_coord(s, &form.z);
    assert(s@ =~= old(s)@ + position_text(*form));
}

/// Builds a `/particle` command (see `particle_spec`).
pub fn build_particle_command(form: &ParticleForm) -> (s: String)
    ensures
        s@ == particle_spec(*form),
{
    let mut cmd = string_from("particle ");
    let id = namespaced_particle_id(form.name.as_str());
    push_str(&mut cmd, id.as_str());
    let has_pos = form.x.is_some() && form.y.is_some() && form.z.is_some();
    let extra = form.dx.is_some() || form.dy.is_some() || form.dz.is_some() || form.speed.is_some()
        || form.count.is_some() || form.mode.is_some() || form.viewers.is_some();
    assert(extra == has_extra(*form));
    let ghost head = cmd@;
    if has_pos || extra {
        push_position(&mut cmd, form);
    }
    let ghost with_pos = cmd@;
    assert(with_pos =~= head + (if has_pos || extra {
        position_text(*form)
    } else {
        seq![]
    }));
    if extra {
        push_motion(&mut cmd, form);
        push_audience(&mut cmd, &form.mode, &form.viewers);
    }
    assert(cmd@ =~= with_pos + (if extra {
        extra_text(*form)
    } else {
        seq![]
    }));
    finish_command(form.with_slash, cmd)
}

} // verus!
