//! `/fill <from> <to> <block>[state]{nbt} [destroy|hollow|keep|outline|replace]`, or with a
//! `replace <filter>` block (1.20.5 and later). Block state and block-entity NBT sit right
//! against the block id, as in `/setblock`.

use vstd::prelude::*;
use crate::give::builder::{finish_command, join_coords, joined3, slashed};
use crate::give::catalog::{namespaced, namespaced_spec};
use crate::text::{push_str, string_from, trim, trim_spec};

verus! {

/// How `/fill` treats the blocks already in the region.
#[derive(Clone, Copy, Debug, PartialEq, Eq, Structural)]
pub enum FillMode {
    Replace,
    Destroy,
    Hollow,
    Keep,
    Outline,
}

/// The keyword of a mode.
pub open spec fn fill_mode_text(m: FillMode) -> Seq<char> {
    match m {
        FillMode::Replace => "replace"@,
        FillMode::Destroy => "destroy"@,
        FillMode::Hollow => "hollow"@,
        FillMode::Keep => "keep"@,
        FillMode::Outline => "outline"@,
    }
}

impl FillMode {
    /// The keyword of this mode.
    pub fn as_str(self) -> (s: &'static str)
        ensures
            s@ == fill_mode_text(self),
    {
        match self {
            FillMode::Replace => "replace",
            FillMode::Destroy => "destroy",
            FillMode::Hollow => "hollow",
            FillMode::Keep => "keep",
            FillMode::Outline => "outline",
        }
    }
}

/// Three coordinates: `x y z`.
pub type Coords = [String; 3];

/// A block to match, with an optional state.
#[derive(Clone, Debug, Default)]
pub struct BlockFilter {
    pub block: String,
    pub blockstate: Option<String>,
}

/// A `/fill` intent.
#[derive(Clone, Debug, Default)]
pub struct FillForm {
    pub with_slash: bool,
    pub from: [String; 3],
    pub to: [String; 3],
    pub block: String,
    pub blockstate: Option<String>,
    /// Serialised block-entity NBT, such as `{Command:"say hi"}`.
    pub nbt: Option<String>,
    pub mode: Option<FillMode>,
    /// When given, the command replaces only this block.
    pub replace_filter: Option<BlockFilter>,
}

/// A block argument: the namespaced id, then `[state]`, then the trimmed NBT, with no spaces.
pub open spec fn block_spec_text(block: Seq<char>, blockstate: Option<Seq<char>>, nbt: Option<Seq<char>>) -> Seq<char> {
    namespaced_spec(block) + (match blockstate {
        Some(s) => "["@ + s + "]"@,
        None => seq![],
    }) + (match nbt {
        Some(n) => trim_spec(n),
        None => seq![],
    })
}

/// The view of an optional text.
pub open spec fn opt_view(o: Option<&str>) -> Option<Seq<char>> {
    match o {
        Some(s) => Some(s@),
        None => None,
    }
}

/// The view of an optional owned text.
pub open spec fn opt_string_view(o: Option<String>) -> Option<Seq<char>> {
    match o {
        Some(s) => Some(s@),
        None => None,
    }
}

/// Builds a block argument (see `block_spec_text`).
pub fn block_spec(block: &str, blockstate: Option<&str>, nbt: Option<&str>) -> (s: String)
    ensures
        s@ == block_spec_text(block@, opt_view(blockstate), opt_view(nbt)),
{
    let mut s = namespaced(block);
    match blockstate {
        Some(st) => {
            push_str(&mut s, "[");
            push_str(&mut s, st);
            push_str(&mut s, "]");
        },
        None => {},
    }
    match nbt {
        Some(n) => {
            let t = trim(n);
            push_str(&mut s, t.as_str());
        },
        None => {},
    }
    s
}

/// `Option<&String>` as `Option<&str>`.
pub(crate) fn as_deref(o: &Option<String>) -> (r: Option<&str>)
    ensures
        opt_view(r) == opt_string_view(*o),
{
    match o {
        Some(s) => Some(s.as_str()),
        None => None,
    }
}

/// The text of a `/fill` intent: a filter means `replace <filter>`; otherwise a mode other
/// than `replace` is written (`replace` is the default).
pub open spec fn fill_spec(form: FillForm) -> Seq<char> {
    let base = "fill "@ + joined3(form.from) + " "@ + joined3(form.to) + " "@ + block_spec_text(
        form.block@,
        opt_string_view(form.blockstate),
        opt_string_view(form.nbt),
    );
    let tail = match form.replace_filter {
        Some(f) => " replace "@ + block_spec_text(f.block@, opt_string_view(f.blockstate), None),
        None => match form.mode {
            Some(m) => if m != FillMode::Replace {
                " "@ + fill_mode_text(m)
            } else {
                seq![]
            },
            None => seq![],
        },
    };
    slashed(form.with_slash, base + tail)
}

/// Builds a `/fill` command (see `fill_spec`).
pub fn build_fill_command(form: &FillForm) -> (s: String)
    ensures
        s@ == fill_spec(*form),
{
    let mut cmd = string_from("fill ");
    let from = join_coords(&form.from);
    push_str(&mut cmd, from.as_str());
    push_str(&mut cmd, " ");
    let to = join_coords(&form.to);
    push_str(&mut cmd, to.as_str());
    push_str(&mut cmd, " ");
    let b = block_spec(form.block.as_str(), as_deref(&form.blockstate), as_deref(&form.nbt));
    push_str(&mut cmd, b.as_str());
    let ghost base = cmd@;
    match &form.replace_filter {
        Some(f) => {
            push_str(&mut cmd, " replace ");
            let fb = block_spec(f.block.as_str(), as_deref(&f.blockstate), None);
            push_str(&mut cmd, fb.as_str());
        },
        None => match form.mode {
            Some(m) => {
                if m != FillMode::Replace {
                    push_str(&mut cmd, " ");
                    push_str(&mut cmd, m.as_str());
                } else {
                    assert(cmd@ =~= base + Seq::<char>::empty());
                }
            },
            None => {
                assert(cmd@ =~= base + Seq::<char>::empty());
            },
        },
    }
    finish_command(form.with_slash, cmd)
}

} // verus!
