//! `/execute <subcommand>... run <command>`, or a pure condition ending in an `if`/`unless`
//! subcommand (1.20.5 and later, no version differences). The subcommands come already
//! formed (see `sub` for builders of the common ones).

pub mod sub;

use vstd::prelude::*;
use crate::give::builder::{finish_command, slashed, starts_with_word};
use crate::text::{
    chars_of, push_str, string_from, string_of, strip_prefix_spec, trim, trim_chars,
    trim_spec,
};

verus! {

/// Three coordinates: `x y z`.
pub type Coords3 = [String; 3];

/// An `/execute` intent.
#[derive(Clone, Debug, Default)]
pub struct ExecuteForm {
    pub with_slash: bool,
    /// Formed subcommands, joined in order.
    pub subcommands: Vec<String>,
    /// The command to run (a leading `/` is dropped); none for a pure condition.
    pub run: Option<String>,
    /// The command must run every tick (say, to detect an arrow landing). Metadata only: it
    /// does not change the text, and the dispatcher passes it on to deployment.
    pub repeat: bool,
}

/// The subcommands, trimmed, without the blank ones.
pub open spec fn clean_subs(subs: Seq<String>) -> Seq<Seq<char>>
    decreases subs.len(),
{
    if subs.len() == 0 {
        seq![]
    } else {
        let rest = clean_subs(subs.drop_last());
        let t = trim_spec(subs.last()@);
        if t.len() > 0 {
            rest.push(t)
        } else {
            rest
        }
    }
}

/// Each part preceded by a space.
pub open spec fn spaced(parts: Seq<Seq<char>>) -> Seq<char>
    decreases parts.len(),
{
    if parts.len() == 0 {
        seq![]
    } else {
        spaced(parts.drop_last()) + " "@ + parts.last()
    }
}

/// The run target: trimmed, without one leading `/`.
pub open spec fn run_text(run: Seq<char>) -> Seq<char> {
    let t = trim_spec(run);
    match strip_prefix_spec(t, "/"@) {
        Some(rest) => rest,
        None => t,
    }
}

/// The result of an `/execute` intent: at least one non-blank subcommand is needed; without a
/// run command the last subcommand must be an `if` or `unless` condition.
pub open spec fn execute_spec(form: ExecuteForm) -> Result<Seq<char>, Seq<char>> {
    let subs = clean_subs(form.subcommands@);
    if subs.len() == 0 {
        Err("execute 至少需要一个子命令。"@)
    } else {
        let has_run = form.run matches Some(r) && trim_spec(r@).len() > 0;
        if has_run {
            Ok(slashed(form.with_slash, "execute"@ + spaced(subs) + " run "@ + run_text(form.run->Some_0@)))
        } else if starts_with_word(subs.last(), "if"@) || starts_with_word(subs.last(), "unless"@) {
            Ok(slashed(form.with_slash, "execute"@ + spaced(subs)))
        } else {
            Err("execute 无 run 时必须以 if/unless 子命令结尾。"@)
        }
    }
}

fn word_start(s: &Vec<char>, w: &str) -> (b: bool)
    ensures
        b == starts_with_word(s@, w@),
{
    let wv = chars_of(w);
    if wv.len() > s.len() {
        return false;
    }
    let mut i: usize = 0;
    while i < wv.len()
        invariant
            wv@ == w@,
            wv@.len() <= s@.len(),
            i <= wv@.len(),
            forall|j: int| 0 <= j < i ==> s@[j] == wv@[j],
        decreases wv@.len() - i,
    {
        if s[i] != wv[i] {
            assert(s@.subrange(0, w@.len() as int)[i as int] != w@[i as int]);
            return false;
        }
        i = i + 1;
    }
    assert(s@.subrange(0, w@.len() as int) =~= w@);
    s.len() == wv.len() || crate::text::char_is_whitespace(s[wv.len()])
}

/// Builds an `/execute` command (see `execute_spec`).
pub fn build_execute_command(form: &ExecuteForm) -> (r: Result<String, String>)
    ensures
        match execute_spec(*form) {
            Ok(t) => r matches Ok(s) && s@ == t,
            Err(m) => r matches Err(e) && e@ == m,
        },
{
    let mut subs: Vec<Vec<char>> = Vec::new();
    let mut i: usize = 0;
    while i < form.subcommands.len()
        invariant
            i <= form.subcommands@.len(),
            Seq::new(subs@.len(), |j: int| subs@[j]@) == clean_subs(form.subcommands@.subrange(0, i as int)),
        decreases form.subcommands@.len() - i,
    {
        let v = chars_of(form.subcommands[i].as_str());
        let t = trim_chars(&v);
        let ghost before = Seq::new(subs@.len(), |j: int| subs@[j]@);
        proof {
            let next = form.subcommands@.subrange(0, i + 1);
            assert(next.drop_last() =~= form.subcommands@.subrange(0, i as int));
        }
        if t.len() > 0 {
            subs.push(t);
            assert(Seq::new(subs@.len(), |j: int| subs@[j]@) =~= before.push(t@));
        }
        i = i + 1;
    }
    assert(form.subcommands@.subrange(0, form.subcommands@.len() as int) =~= form.subcommands@);
    let ghost clean = clean_subs(form.subcommands@);
    if subs.len() == 0 {
        return Err(string_from("execute 至少需要一个子命令。"));
    }
    let mut cmd = string_from("execute");
    let mut k: usize = 0;
    while k < subs.len()
        invariant
            clean == Seq::new(subs@.len(), |j: int| subs@[j]@),
            k <= subs@.len(),
            cmd@ == "execute"@ + spaced(clean.subrange(0, k as int)),
        decreases subs@.len() - k,
    {
        push_str(&mut cmd, " ");
        let part = string_of(&subs[k]);
        push_str(&mut cmd, part.as_str());
        proof {
            let next = clean.subrange(0, k + 1);
            assert(next.drop_last() =~= clean.subrange(0, k as int));
        }
        k = k + 1;
        assert(cmd@ =~= "execute"@ + spaced(clean.subrange(0, k as int)));
    }
    assert(clean.subrange(0, clean.len() as int) =~= clean);
    match &form.run {
        Some(r) => {
            if !crate::text::is_blank(r.as_str()) {
                push_str(&mut cmd, " run ");
                let t = trim(r.as_str());
                match crate::text::strip_prefix(t.as_str(), "/") {
                    Some(rest) => push_str(&mut cmd, rest.as_str()),
                    None => push_str(&mut cmd, t.as_str()),
                }
                return Ok(finish_command(form.with_slash, cmd));
            }
        },
        None => {},
    }
    let last = &subs[subs.len() - 1];
    if !(word_start(last, "if") || word_start(last, "unless")) {
        return Err(string_from("execute 无 run 时必须以 if/unless 子命令结尾。"));
    }
    Ok(finish_command(form.with_slash, cmd))
}

} // verus!
