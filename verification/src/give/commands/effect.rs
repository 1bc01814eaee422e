//! `/effect` (1.19.4 and later, the same from 1.20.5 to 26.x):
//! `effect give <target> <effect> [<seconds>|infinite] [<amplifier>] [<hideParticles>]` and
//! `effect clear <target> [<effect>]`.

use vstd::prelude::*;
use crate::give::builder::{finish_command, slashed};
use crate::give::catalog::{namespaced, namespaced_spec};
use crate::text::{int_text, push_i64, push_str, string_from};

verus! {

/// A duration: seconds, or `infinite`.
#[derive(Clone, Debug)]
pub enum EffectDuration {
    Seconds(i64),
    Infinite,
}

/// An `effect give` intent. The game defaults are 30 seconds, amplifier 0 (level I) and
/// particles shown.
#[derive(Clone, Debug, Default)]
pub struct EffectGiveForm {
    pub with_slash: bool,
    pub target: String,
    pub effect: String,
    pub duration: Option<EffectDuration>,
    pub amplifier: Option<i64>,
    pub hide_particles: Option<bool>,
}

/// An `effect clear` intent; no effect clears them all.
#[derive(Clone, Debug, Default)]
pub struct EffectClearForm {
    pub with_slash: bool,
    pub target: String,
    pub effect: Option<String>,
}

/// The duration argument: the seconds, `infinite`, or the default `30`.
pub open spec fn duration_text(d: Option<EffectDuration>) -> Seq<char> {
    match d {
        Some(EffectDuration::Seconds(s)) => int_text(s as int),
        Some(EffectDuration::Infinite) => "infinite"@,
        None => "30"@,
    }
}

/// The duration segment: present when any optional argument is.
pub open spec fn duration_segment(form: EffectGiveForm) -> Seq<char> {
    if form.duration is Some || form.amplifier is Some || form.hide_particles is Some {
        " "@ + duration_text(form.duration)
    } else {
        seq![]
    }
}

/// The amplifier segment: present when the amplifier or the particle flag is.
pub open spec fn amplifier_segment(form: EffectGiveForm) -> Seq<char> {
    if form.amplifier is Some || form.hide_particles is Some {
        " "@ + int_text(match form.amplifier { Some(x) => x as int, None => 0 })
    } else {
        seq![]
    }
}

/// The particle segment: present when the flag is.
pub open spec fn hide_segment(form: EffectGiveForm) -> Seq<char> {
    match form.hide_particles {
        Some(h) => " "@ + (if h { "true"@ } else { "false"@ }),
        None => seq![],
    }
}

/// The text of an `effect give` intent. The optional arguments are positional: a later one
/// being present writes out the earlier ones, with their defaults.
pub open spec fn effect_give_spec(form: EffectGiveForm) -> Seq<char> {
    slashed(
        form.with_slash,
        "effect give "@ + form.target@ + " "@ + namespaced_spec(form.effect@) + duration_segment(form)
            + amplifier_segment(form) + hide_segment(form),
    )
}

fn push_duration(cmd: &mut String, form: &EffectGiveForm)
    ensures
        final(cmd)@ == old(cmd)@ + duration_segment(*form),
{
    if form.duration.is_some() || form.amplifier.is_some() || form.hide_particles.is_some() {
        push_str(cmd, " ");
        match &form.duration {
            Some(EffectDuration::Seconds(x)) => push_i64(cmd, *x),
            Some(EffectDuration::Infinite) => push_str(cmd, "infinite"),
            None => push_str(cmd, "30"),
        }
    } else {
        assert(old(cmd)@ + duration_segment(*form) =~= old(cmd)@);
    }
}

fn push_amplifier(cmd: &mut String, form: &EffectGiveForm)
    ensures
        final(cmd)@ == old(cmd)@ + amplifier_segment(*form),
{
    if form.amplifier.is_some() || form.hide_particles.is_some() {
        push_str(cmd, " ");
        let amp: i64 = match form.amplifier {
            Some(x) => x,
            None => 0,
        };
        push_i64(cmd, amp);
    } else {
        assert(old(cmd)@ + amplifier_segment(*form) =~= old(cmd)@);
    }
}

fn push_hide(cmd: &mut String, form: &EffectGiveForm)
    ensures
        final(cmd)@ == old(cmd)@ + hide_segment(*form),
{
    match form.hide_particles {
        Some(h) => {
            push_str(cmd, " ");
            if h {
                push_str(cmd, "true");
            } else {
                push_str(cmd, "false");
            }
        },
        None => {
            assert(old(cmd)@ + hide_segment(*form) =~= old(cmd)@);
        },
    }
}

/// Builds an `effect give` command (see `effect_give_spec`).
pub fn build_effect_give_command(form: &EffectGiveForm) -> (s: String)
    ensures
        s@ == effect_give_spec(*form),
{
    let mut cmd = string_from("effect give ");
    push_str(&mut cmd, form.target.as_str());
    push_str(&mut cmd, " ");
    let e = namespaced(form.effect.as_str());
    push_str(&mut cmd, e.as_str());
    push_duration(&mut cmd, form);
    push_amplifier(&mut cmd, form);
    push_hide(&mut cmd, form);
    finish_command(form.with_slash, cmd)
}

/// The text of an `effect clear` intent; an empty effect counts as none.
pub open spec fn effect_clear_spec(form: EffectClearForm) -> Seq<char> {
    let base = "effect clear "@ + form.target@;
    let cmd = match form.effect {
        Some(e) => if e@.len() > 0 {
            base + " "@ + namespaced_spec(e@)
        } else {
            base
        },
        None => base,
    };
    slashed(form.with_slash, cmd)
}

/// Builds an `effect clear` command (see `effect_clear_spec`).
pub fn build_effect_clear_command(form: &EffectClearForm) -> (s: String)
    ensures
        s@ == effect_clear_spec(*form),
{
    let mut cmd = string_from("effect clear ");
    push_str(&mut cmd, form.target.as_str());
    match &form.effect {
        Some(e) => {
            if e.as_str().unicode_len() > 0 {
                push_str(&mut cmd, " ");
                let n = namespaced(e.as_str());
                push_str(&mut cmd, n.as_str());
            }
        },
        None => {},
    }
    finish_command(form.with_slash, cmd)
}

} // verus!
