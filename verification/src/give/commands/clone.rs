//! `/clone [from <dim>] <begin> <end> [to <dim>] <dest> [replace|masked|filtered <filter>]
//! [normal|force|move]` (1.20.5 and later, with the cross-dimension form). `/clone` takes
//! absolute or relative coordinates only, not local ones.

use vstd::prelude::*;
use crate::give::builder::{finish_command, join_coords, joined3, slashed};
use crate::give::catalog::{namespaced, namespaced_spec};
use crate::give::commands::fill::{as_deref, block_spec, block_spec_text, opt_string_view, BlockFilter};
use crate::text::{push_str, string_from};

verus! {

/// Which source blocks are copied.
#[derive(Clone, Copy, Debug, PartialEq, Eq, Structural)]
pub enum CloneMaskMode {
    Replace,
    Masked,
    Filtered,
}

/// What happens to the source region.
#[derive(Clone, Copy, Debug, PartialEq, Eq, Structural)]
pub enum CloneMode {
    Normal,
    Force,
    Move,
}

/// A `/clone` intent.
#[derive(Clone, Debug, Default)]
pub struct CloneForm {
    pub with_slash: bool,
    /// Source dimension, such as `minecraft:the_nether`; the executor's when omitted.
    pub from_dimension: Option<String>,
    pub begin: [String; 3],
    pub end: [String; 3],
    /// Target dimension; the source's when omitted.
    pub to_dimension: Option<String>,
    pub destination: [String; 3],
    pub mask_mode: Option<CloneMaskMode>,
    /// Required with the `filtered` mask.
    pub filter: Option<BlockFilter>,
    pub clone_mode: Option<CloneMode>,
}

/// The error for a `filtered` clone without a filter block.
pub open spec fn missing_filter_message() -> Seq<char> {
    "clone filtered 模式需要提供 filter 过滤方块。"@
}

/// The regions part: dimensions and the three coordinate triples.
pub open spec fn clone_regions(form: CloneForm) -> Seq<char> {
    "clone"@ + (match form.from_dimension {
        Some(d) => " from "@ + namespaced_spec(d@),
        None => seq![],
    }) + " "@ + joined3(form.begin) + " "@ + joined3(form.end) + (match form.to_dimension {
        Some(d) => " to "@ + namespaced_spec(d@),
        None => seq![],
    }) + " "@ + joined3(form.destination)
}

/// The mask part (the filter is present whenever the mask is `filtered` here).
pub open spec fn clone_mask(form: CloneForm) -> Seq<char> {
    match form.mask_mode {
        Some(CloneMaskMode::Filtered) => match form.filter {
            Some(f) => " filtered "@ + block_spec_text(f.block@, opt_string_view(f.blockstate), None),
            None => seq![],
        },
        Some(CloneMaskMode::Masked) => " masked"@,
        _ => seq![],
    }
}

/// The mode part: `force` or `move`, after an explicit `replace` when no mask was given.
pub open spec fn clone_mode_part(form: CloneForm) -> Seq<char> {
    match form.clone_mode {
        Some(CloneMode::Force) => (if form.mask_mode is None { " replace"@ } else { seq![] }) + " force"@,
        Some(CloneMode::Move) => (if form.mask_mode is None { " replace"@ } else { seq![] }) + " move"@,
        _ => seq![],
    }
}

/// The result of a `/clone` intent: an error for a `filtered` mask without a filter,
/// otherwise the command.
pub open spec fn clone_spec(form: CloneForm) -> Result<Seq<char>, Seq<char>> {
    if form.mask_mode == Some(CloneMaskMode::Filtered) && form.filter is None {
        Err(missing_filter_message())
    } else {
        Ok(slashed(form.with_slash, clone_regions(form) + clone_mask(form) + clone_mode_part(form)))
    }
}

fn push_regions(cmd: &mut String, form: &CloneForm)
    ensures
        final(cmd)@ == old(cmd)@ + clone_regions(*form),
{
    let ghost start = cmd@;
    push_str(cmd, "clone");
    match &form.from_dimension {
        Some(d) => {
            push_str(cmd, " from ");
            let n = namespaced(d.as_str());
            push_str(cmd, n.as_str());
        },
        None => {},
    }
    push_str(cmd, " ");
    let b = join_coords(&form.begin);
    push_str(cmd, b.as_str());
    push_str(cmd, " ");
    let e = join_coords(&form.end);
    push_str(cmd, e.as_str());
    match &form.to_dimension {
        Some(d) => {
            push_str(cmd, " to ");
            let n = namespaced(d.as_str());
            push_str(cmd, n.as_str());
        },
        None => {},
    }
    push_str(cmd, " ");
    let t = join_coords(&form.destination);
    push_str(cmd, t.as_str());
    assert(cmd@ =~= start + clone_regions(*form));
}

/// Builds a `/clone` command (see `clone_spec`).
pub fn build_clone_command(form: &CloneForm) -> (r: Result<String, String>)
    ensures
        match clone_spec(*form) {
            Ok(t) => r matches Ok(s) && s@ == t,
            Err(m) => r matches Err(e) && e@ == m,
        },
{
    let mut cmd = String::new();
    push_regions(&mut cmd, form);
    let ghost regions = cmd@;
    match form.mask_mode {
        Some(CloneMaskMode::Filtered) => match &form.filter {
            Some(f) => {
                push_str(&mut cmd, " filtered ");
                let b = block_spec(f.block.as_str(), as_deref(&f.blockstate), None);
                push_str(&mut cmd, b.as_str());
            },
            None => {
                return Err(string_from("clone filtered 模式需要提供 filter 过滤方块。"));
            },
        },
        Some(CloneMaskMode::Masked) => push_str(&mut cmd, " masked"),
        _ => {},
    }
    assert(cmd@ =~= regions + clone_mask(*form));
    let ghost masked = cmd@;
    match form.clone_mode {
        Some(CloneMode::Force) => {
            if form.mask_mode.is_none() {
                push_str(&mut cmd, " replace");
            }
            push_str(&mut cmd, " force");
        },
        Some(CloneMode::Move) => {
            if form.mask_mode.is_none() {
                push_str(&mut cmd, " replace");
            }
            push_str(&mut cmd, " move");
        },
        _ => {},
    }
    assert(cmd@ =~= masked + clone_mode_part(*form));
    Ok(finish_command(form.with_slash, cmd))
}

} // verus!
