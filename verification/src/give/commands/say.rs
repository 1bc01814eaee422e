//! `/say <message>` (the same in every version).

use vstd::prelude::*;
use crate::give::builder::{finish_command, slashed};
use crate::text::{push_str, string_from};

verus! {

/// A `/say` intent.
#[derive(Clone, Debug, Default)]
pub struct SayForm {
    pub with_slash: bool,
    pub message: String,
}

/// `say <message>`, with the optional slash.
pub fn build_say_command(form: &SayForm) -> (s: String)
    ensures
        s@ == slashed(form.with_slash, "say "@ + form.message@),
{
    let mut cmd = string_from("say ");
    push_str(&mut cmd, form.message.as_str());
    finish_command(form.with_slash, cmd)
}

} // verus!
