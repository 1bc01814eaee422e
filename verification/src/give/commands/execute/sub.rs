//! Builders of common `/execute` subcommands, each returning the formed fragment.

use vstd::prelude::*;
use crate::give::builder::{join_coords, joined3};
use crate::text::{push_str, string_from};

verus! {

fn word_then(word: &str, arg: &str) -> (s: String)
    ensures
        s@ == word@ + arg@,
{
    let mut s = string_from(word);
    push_str(&mut s, arg);
    s
}

/// `as <selector>`.
pub fn as_selector(selector: &str) -> (s: String)
    ensures
        s@ == "as "@ + selector@,
{
    word_then("as ", selector)
}

/// `at <selector>`.
pub fn at(selector: &str) -> (s: String)
    ensures
        s@ == "at "@ + selector@,
{
    word_then("at ", selector)
}

/// `positioned <x y z>`.
pub fn positioned(pos: &[String; 3]) -> (s: String)
    ensures
        s@ == "positioned "@ + joined3(*pos),
{
    let p = join_coords(pos);
    word_then("positioned ", p.as_str())
}

/// `positioned as <selector>`.
pub fn positioned_as(selector: &str) -> (s: String)
    ensures
        s@ == "positioned as "@ + selector@,
{
    word_then("positioned as ", selector)
}

/// `rotated <yaw> <pitch>`.
pub fn rotated(yaw: &str, pitch: &str) -> (s: String)
    ensures
        s@ == "rotated "@ + yaw@ + " "@ + pitch@,
{
    let mut s = word_then("rotated ", yaw);
    push_str(&mut s, " ");
    push_str(&mut s, pitch);
    s
}

/// `rotated as <selector>`.
pub fn rotated_as(selector: &str) -> (s: String)
    ensures
        s@ == "rotated as "@ + selector@,
{
    word_then("rotated as ", selector)
}

/// `facing <x y z>`.
pub fn facing(pos: &[String; 3]) -> (s: String)
    ensures
        s@ == "facing "@ + joined3(*pos),
{
    let p = join_coords(pos);
    word_then("facing ", p.as_str())
}

/// `facing entity <selector> <anchor>`, the anchor `eyes` by default.
pub fn facing_entity(selector: &str, anchor: Option<&str>) -> (s: String)
    ensures
        s@ == "facing entity "@ + selector@ + " "@ + (match anchor {
            Some(a) => a@,
            None => "eyes"@,
        }),
{
    let mut s = word_then("facing entity ", selector);
    push_str(&mut s, " ");
    match anchor {
        Some(a) => push_str(&mut s, a),
        None => push_str(&mut s, "eyes"),
    }
    s
}

/// `anchored <anchor>`.
pub fn anchored(anchor: &str) -> (s: String)
    ensures
        s@ == "anchored "@ + anchor@,
{
    word_then("anchored ", anchor)
}

/// `in <dimension>`.
pub fn in_dimension(dimension: &str) -> (s: String)
    ensures
        s@ == "in "@ + dimension@,
{
    word_then("in ", dimension)
}

/// `on <relation>`.
pub fn on(relation: &str) -> (s: String)
    ensures
        s@ == "on "@ + relation@,
{
    word_then("on ", relation)
}

/// `align <axes>`.
pub fn align(axes: &str) -> (s: String)
    ensures
        s@ == "align "@ + axes@,
{
    word_then("align ", axes)
}

/// `if block <x y z> <block>`.
pub fn if_block(pos: &[String; 3], block: &str) -> (s: String)
    ensures
        s@ == "if block "@ + joined3(*pos) + " "@ + block@,
{
    let p = join_coords(pos);
    let mut s = word_then("if block ", p.as_str());
    push_str(&mut s, " ");
    push_str(&mut s, block);
    s
}

/// `unless block <x y z> <block>`.
pub fn unless_block(pos: &[String; 3], block: &str) -> (s: String)
    ensures
        s@ == "unless block "@ + joined3(*pos) + " "@ + block@,
{
    let p = join_coords(pos);
    let mut s = word_then("unless block ", p.as_str());
    push_str(&mut s, " ");
    push_str(&mut s, block);
    s
}

/// `if entity <selector>`.
pub fn if_entity(selector: &str) -> (s: String)
    ensures
        s@ == "if entity "@ + selector@,
{
    word_then("if entity ", selector)
}

/// `unless entity <selector>`.
pub fn unless_entity(selector: &str) -> (s: String)
    ensures
        s@ == "unless entity "@ + selector@,
{
    word_then("unless entity ", selector)
}

/// `if score <target> <objective> matches <range>`.
pub fn if_score_matches(target: &str, objective: &str, range: &str) -> (s: String)
    ensures
        s@ == "if score "@ + target@ + " "@ + objective@ + " matches "@ + range@,
{
    let mut s = word_then("if score ", target);
    push_str(&mut s, " ");
    push_str(&mut s, objective);
    push_str(&mut s, " matches ");
    push_str(&mut s, range);
    s
}

/// `if predicate <predicate>`.
pub fn if_predicate(predicate: &str) -> (s: String)
    ensures
        s@ == "if predicate "@ + predicate@,
{
    word_then("if predicate ", predicate)
}

/// `store result score <target> <objective>`.
pub fn store_result_score(target: &str, objective: &str) -> (s: String)
    ensures
        s@ == "store result score "@ + target@ + " "@ + objective@,
{
    let mut s = word_then("store result score ", target);
    push_str(&mut s, " ");
    push_str(&mut s, objective);
    s
}

/// `store success score <target> <objective>`.
pub fn store_success_score(target: &str, objective: &str) -> (s: String)
    ensures
        s@ == "store success score "@ + target@ + " "@ + objective@,
{
    let mut s = word_then("store success score ", target);
    push_str(&mut s, " ");
    push_str(&mut s, objective);
    s
}

} // verus!
