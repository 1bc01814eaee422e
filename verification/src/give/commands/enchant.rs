//! `/enchant <targets> <enchantment> [<level>]` (1.20.5 and later). Whether the enchantment
//! fits the item or exceeds its maximum level is the game's decision at run time.

use vstd::prelude::*;
use crate::give::builder::{finish_command, slashed};
use crate::give::catalog::{namespaced, namespaced_spec};
use crate::text::{int_text, push_char, push_i64, push_str, string_from};

verus! {

/// An `/enchant` intent; the level defaults to 1 in the game when omitted.
#[derive(Clone, Debug, Default)]
pub struct EnchantForm {
    pub with_slash: bool,
    pub targets: String,
    pub enchantment: String,
    pub level: Option<i64>,
}

/// The text of an `/enchant` intent.
pub open spec fn enchant_spec(form: EnchantForm) -> Seq<char> {
    let base = "enchant "@ + form.targets@ + " "@ + namespaced_spec(form.enchantment@);
    let cmd = match form.level {
        Some(l) => base + " "@ + int_text(l as int),
        None => base,
    };
    slashed(form.with_slash, cmd)
}

/// `enchant <targets> <namespaced enchantment> [<level>]`.
pub fn build_enchant_command(form: &EnchantForm) -> (s: String)
    ensures
        s@ == enchant_spec(*form),
{
    let mut cmd = string_from("enchant ");
    push_str(&mut cmd, form.targets.as_str());
    push_str(&mut cmd, " ");
    let e = namespaced(form.enchantment.as_str());
    push_str(&mut cmd, e.as_str());
    match form.level {
        Some(l) => {
            push_char(&mut cmd, ' ');
            push_i64(&mut cmd, l);
            proof {
                reveal_strlit(" ");
                assert(" "@ =~= seq![' ']);
            }
        },
        None => {},
    }
    finish_command(form.with_slash, cmd)
}

} // verus!
