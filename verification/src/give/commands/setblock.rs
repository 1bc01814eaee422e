//! `/setblock <x> <y> <z> <block>[state]{nbt} [replace|destroy|keep]` (1.20.5 and later).
//! Block-entity NBT, the same in 1.20.6 and 1.21.5: command blocks
//! `{Command:"...",auto:1b,TrackOutput:0b}`, containers `{Items:[{Slot:0b,id:"...",count:5}]}`,
//! signs `{front_text:{messages:[...],color:"black",has_glowing_text:0b},...}`.

use vstd::prelude::*;
use crate::give::builder::{
    bool_byte, finish_command, json_quoted, quote, slashed, text_component, text_component_spec, GiveVersion,
};
use crate::give::catalog::{namespaced, namespaced_spec};
use crate::give::commands::execute::run_text;
use crate::give::commands::nbt::{comma_joined, container_item_spec, serialize_container_item, NbtItem};
use crate::text::{push_str, string_from, strip_prefix, trim};

verus! {

/// What happens to the block already there.
#[derive(Clone, Copy, Debug, PartialEq, Eq, Structural)]
pub enum SetblockMode {
    Replace,
    Destroy,
    Keep,
}

/// An item in a container slot.
#[derive(Clone, Debug)]
pub struct ContainerSlot {
    pub slot: i64,
    pub item: NbtItem,
}

/// Command-block settings.
#[derive(Clone, Debug, Default)]
pub struct SetblockCommandBlockOptions {
    pub command: String,
    /// Always active (repeating and chain blocks).
    pub auto: bool,
    /// Omitted means true; only an explicit false writes `TrackOutput:0b`.
    pub track_output: Option<bool>,
}

/// The block-entity data: one of three kinds, or none.
#[derive(Clone, Debug, Default)]
pub enum SetblockNbt {
    #[default]
    Empty,
    CommandBlock(SetblockCommandBlockOptions),
    ContainerItems(Vec<ContainerSlot>),
    SignLines([String; 4]),
}

/// A `/setblock` intent.
#[derive(Clone, Debug)]
pub struct SetblockForm {
    pub version: GiveVersion,
    pub with_slash: bool,
    /// Coordinates: `0`, `~`, `~1` or `^1`.
    pub x: String,
    pub y: String,
    pub z: String,
    pub block: String,
    /// Such as `facing=up,conditional=false`, without brackets.
    pub blockstate: Option<String>,
    pub mode: Option<SetblockMode>,
    pub nbt: SetblockNbt,
}

/// Command-block NBT: the command without a leading slash, then `auto:1b` and
/// `TrackOutput:0b` when they apply.
pub open spec fn command_block_spec(o: SetblockCommandBlockOptions) -> Seq<char> {
    "{Command:"@ + json_quoted(run_text(o.command@)) + (if o.auto { ",auto:1b"@ } else { seq![] }) + (if o.track_output
        == Some(false) {
        ",TrackOutput:0b"@
    } else {
        seq![]
    }) + "}"@
}

/// Container NBT: `{Items:[...]}` with each slot serialised, nothing for no slots.
pub open spec fn container_spec(slots: Seq<ContainerSlot>) -> Seq<char> {
    if slots.len() == 0 {
        seq![]
    } else {
        "{Items:["@ + comma_joined(Seq::new(slots.len(), |i: int| container_item_spec(slots[i].slot, slots[i].item, None)))
            + "]}"@
    }
}

/// One sign line: the JSON text component, as a JSON string.
pub open spec fn sign_message(t: Seq<char>) -> Seq<char> {
    json_quoted(text_component_spec(t))
}

/// Sign NBT: the four front lines, four empty back lines, black, not glowing, not waxed.
pub open spec fn sign_spec(lines: [String; 4]) -> Seq<char> {
    let front = sign_message(lines@[0]@) + ","@ + sign_message(lines@[1]@) + ","@ + sign_message(lines@[2]@) + ","@
        + sign_message(lines@[3]@);
    let e = sign_message(seq![]);
    let back = e + ","@ + e + ","@ + e + ","@ + e;
    "{front_text:{messages:["@ + front + "],color:\"black\",has_glowing_text:0b},back_text:{messages:["@ + back
        + "],color:\"black\",has_glowing_text:0b},is_waxed:0b}"@
}

/// The block-entity NBT of a form.
pub open spec fn setblock_nbt_spec(nbt: SetblockNbt) -> Seq<char> {
    match nbt {
        SetblockNbt::Empty => seq![],
        SetblockNbt::CommandBlock(o) => command_block_spec(o),
        SetblockNbt::ContainerItems(items) => container_spec(items@),
        SetblockNbt::SignLines(lines) => sign_spec(lines),
    }
}

/// The text of a `/setblock` intent; `replace`, the default mode, is not written.
pub open spec fn setblock_spec(form: SetblockForm) -> Seq<char> {
    slashed(
        form.with_slash,
        "setblock "@ + form.x@ + " "@ + form.y@ + " "@ + form.z@ + " "@ + namespaced_spec(form.block@) + (match form.blockstate {
            Some(s) => "["@ + s@ + "]"@,
            None => seq![],
        }) + setblock_nbt_spec(form.nbt) + (match form.mode {
            Some(SetblockMode::Destroy) => " destroy"@,
            Some(SetblockMode::Keep) => " keep"@,
            _ => seq![],
        }),
    )
}

fn command_block_nbt(o: &SetblockCommandBlockOptions) -> (s: String)
    ensures
        s@ == command_block_spec(*o),
{
    let t = trim(o.command.as_str());
    let cmd = match strip_prefix(t.as_str(), "/") {
        Some(rest) => rest,
        None => t,
    };
    let mut s = string_from("{Command:");
    let q = quote(cmd.as_str());
    push_str(&mut s, q.as_str());
    if o.auto {
        push_str(&mut s, ",auto:1b");
    }
    match o.track_output {
        Some(false) => push_str(&mut s, ",TrackOutput:0b"),
        _ => {},
    }
    push_str(&mut s, "}");
    assert(s@ =~= command_block_spec(*o));
    s
}

fn container_nbt(slots: &Vec<ContainerSlot>) -> (s: String)
    ensures
        s@ == container_spec(slots@),
{
    if slots.len() == 0 {
        return String::new();
    }
    let ghost entries = Seq::new(slots@.len(), |i: int| container_item_spec(slots@[i].slot, slots@[i].item, None));
    let mut s = string_from("{Items:[");
    let ghost open = s@;
    let mut i: usize = 0;
    while i < slots.len()
        invariant
            i <= slots@.len(),
            entries == Seq::new(slots@.len(), |j: int| container_item_spec(slots@[j].slot, slots@[j].item, None)),
            s@ == open + comma_joined(entries.subrange(0, i as int)),
        decreases slots@.len() - i,
    {
        let e = serialize_container_item(slots[i].slot, &slots[i].item, None);
        if i > 0 {
            push_str(&mut s, ",");
        }
        push_str(&mut s, e.as_str());
        proof {
            let next = entries.subrange(0, i + 1);
            assert(next.drop_last() =~= entries.subrange(0, i as int));
        }
        i = i + 1;
    }
    assert(entries.subrange(0, entries.len() as int) =~= entries);
    push_str(&mut s, "]}");
    s
}

fn push_sign_message(s: &mut String, t: &str)
    ensures
        final(s)@ == old(s)@ + sign_message(t@),
{
    let c = text_component(t);
    let q = quote(c.as_str());
    push_str(s, q.as_str());
}

fn sign_nbt(lines: &[String; 4]) -> (s: String)
    ensures
        s@ == sign_spec(*lines),
{
    let mut s = string_from("{front_text:{messages:[");
    push_sign_message(&mut s, lines[0].as_str());
    push_str(&mut s, ",");
    push_sign_message(&mut s, lines[1].as_str());
    push_str(&mut s, ",");
    push_sign_message(&mut s, lines[2].as_str());
    push_str(&mut s, ",");
    push_sign_message(&mut s, lines[3].as_str());
    push_str(&mut s, "],color:\"black\",has_glowing_text:");
    push_str(&mut s, bool_byte(false));
    push_str(&mut s, "},back_text:{messages:[");
    push_sign_message(&mut s, "");
    push_str(&mut s, ",");
    push_sign_message(&mut s, "");
    push_str(&mut s, ",");
    push_sign_message(&mut s, "");
    push_str(&mut s, ",");
    push_sign_message(&mut s, "");
    push_str(&mut s, "],color:\"black\",has_glowing_text:");
    push_str(&mut s, bool_byte(false));
    push_str(&mut s, "},is_waxed:");
    push_str(&mut s, bool_byte(false));
    push_str(&mut s, "}");
    proof {
        reveal_strlit("");
        assert(""@ =~= Seq::<char>::empty());
        reveal_strlit("0b");
        reveal_strlit("],color:\"black\",has_glowing_text:");
        reveal_strlit("],color:\"black\",has_glowing_text:0b},back_text:{messages:[");
        reveal_strlit("},back_text:{messages:[");
        reveal_strlit("},is_waxed:");
        reveal_strlit("],color:\"black\",has_glowing_text:0b},is_waxed:0b}");
        reveal_strlit("}");
        assert(s@ =~= sign_spec(*lines));
    }
    s
}

fn setblock_nbt(nbt: &SetblockNbt) -> (s: String)
    ensures
        s@ == setblock_nbt_spec(*nbt),
{
    match nbt {
        SetblockNbt::Empty => String::new(),
        SetblockNbt::CommandBlock(o) => command_block_nbt(o),
        SetblockNbt::ContainerItems(items) => container_nbt(items),
        SetblockNbt::SignLines(lines) => sign_nbt(lines),
    }
}

/// Builds a `/setblock` command (see `setblock_spec`). The NBT sits right against the block
/// id: `minecraft:command_block[facing=up]{Command:...}`.
pub fn build_setblock_command(form: &SetblockForm) -> (s: String)
    ensures
        s@ == setblock_spec(*form),
{
    let mut cmd = string_from("setblock ");
    push_str(&mut cmd, form.x.as_str());
    push_str(&mut cmd, " ");
    push_str(&mut cmd, form.y.as_str());
    push_str(&mut cmd, " ");
    push_str(&mut cmd, form.z.as_str());
    push_str(&mut cmd, " ");
    let b = namespaced(form.block.as_str());
    push_str(&mut cmd, b.as_str());
    match &form.blockstate {
        Some(st) => {
            push_str(&mut cmd, "[");
            push_str(&mut cmd, st.as_str());
            push_str(&mut cmd, "]");
        },
        None => {},
    }
    let n = setblock_nbt(&form.nbt);
    push_str(&mut cmd, n.as_str());
    match form.mode {
        Some(SetblockMode::Destroy) => push_str(&mut cmd, " destroy"),
        Some(SetblockMode::Keep) => push_str(&mut cmd, " keep"),
        _ => {},
    }
    assert(cmd@ =~= "setblock "@ + form.x@ + " "@ + form.y@ + " "@ + form.z@ + " "@ + namespaced_spec(form.block@) + (match form.blockstate {
        Some(s) => "["@ + s@ + "]"@,
        None => seq![],
    }) + setblock_nbt_spec(form.nbt) + (match form.mode {
        Some(SetblockMode::Destroy) => " destroy"@,
        Some(SetblockMode::Keep) => " keep"@,
        _ => seq![],
    }));
    finish_command(form.with_slash, cmd)
}

} // verus!
