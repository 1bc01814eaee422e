//! Reading the model's reply: a JSON document `{intents: [...], explanation}`, possibly in a
//! ```` ```json ```` code fence. The JSON text itself is parsed by the caller; this module
//! takes the parsed document and picks the intents out of it, forgiving the mistakes the
//! model is known to make.

use vstd::prelude::*;
use crate::give::dispatch::{intent_form, intent_name, known_command, CommandIntent};
use crate::give::json::{get_str, get_string, jget, lemma_member_views, lemma_views, member_views, views, JsonValue, JsonView,
};
use crate::text::{chars_of, push_range, push_str, str_eq, string_from, strip_prefix, strip_prefix_spec, trim, trim_spec};

verus! {

/// The intents of a reply and its explanation.
#[derive(Debug)]
pub struct ParsedAi {
    pub intents: Vec<CommandIntent>,
    pub explanation: String,
}

/// The commands an intent may name; anything else in the intents array is not an intent.
pub const KNOWN_COMMANDS: [&'static str; 14] = [
    "give",
    "say",
    "effect_give",
    "effect_clear",
    "tp",
    "setblock",
    "summon",
    "fill",
    "clone",
    "enchant",
    "execute",
    "scoreboard",
    "attribute",
    "particle",
];

/// `s` ends with `p`.
pub open spec fn ends_with(s: Seq<char>, p: Seq<char>) -> bool {
    p.len() <= s.len() && s.subrange(s.len() - p.len(), s.len() as int) == p
}

/// `s` with `p` removed from its end, when it ends with `p` (`str::strip_suffix`).
pub open spec fn strip_suffix_spec(s: Seq<char>, p: Seq<char>) -> Option<Seq<char>> {
    if ends_with(s, p) {
        Some(s.subrange(0, s.len() - p.len()))
    } else {
        None
    }
}

/// `s` with `p` removed from its end, or `None` when it does not end with `p`.
pub fn strip_suffix(s: &str, p: &str) -> (r: Option<String>)
    ensures
        match r {
            Some(t) => strip_suffix_spec(s@, p@) == Some(t@),
            None => strip_suffix_spec(s@, p@) is None,
        },
{
    let v = chars_of(s);
    let w = chars_of(p);
    if w.len() > v.len() {
        return None;
    }
    let n = v.len();
    let off = n - w.len();
    let mut i: usize = 0;
    while i < w.len()
        invariant
            v@ == s@,
            w@ == p@,
            n == v@.len(),
            off + w@.len() == n,
            i <= w@.len(),
            forall|j: int| 0 <= j < i ==> v@[off + j] == w@[j],
        decreases w@.len() - i,
    {
        if v[off + i] != w[i] {
            assert(s@.subrange(off as int, s@.len() as int)[i as int] != p@[i as int]);
            return None;
        }
        i = i + 1;
    }
    assert(s@.subrange(off as int, s@.len() as int) =~= p@);
    let mut out = String::new();
    push_range(&mut out, &v, 0, off);
    Some(out)
}

/// `s` without its leading spaces and tabs.
pub open spec fn skip_blanks(s: Seq<char>) -> Seq<char>
    decreases s.len(),
{
    if s.len() > 0 && (s[0] == ' ' || s[0] == '\t') {
        skip_blanks(s.drop_first())
    } else {
        s
    }
}

fn skip_blanks_text(s: &str) -> (out: String)
    ensures
        out@ == skip_blanks(s@),
{
    let v = chars_of(s);
    let mut i: usize = 0;
    assert(s@.subrange(0, s@.len() as int) =~= s@);
    while i < v.len() && (v[i] == ' ' || v[i] == '\t')
        invariant
            v@ == s@,
            i <= v@.len(),
            skip_blanks(s@) == skip_blanks(s@.subrange(i as int, s@.len() as int)),
        decreases v@.len() - i,
    {
        assert(s@.subrange(i as int, s@.len() as int).drop_first() =~= s@.subrange(i + 1, s@.len() as int));
        i = i + 1;
    }
    let mut out = String::new();
    push_range(&mut out, &v, i, v.len());
    out
}

/// The reply without a code fence: the trimmed text, or, when it is fenced as
/// ```` ```json ```` (or a bare ```` ``` ````) followed by a line break (blanks allowed
/// before it) and closed by ```` ``` ```` at the end, the body inside, trimmed.
pub open spec fn fence_body(content: Seq<char>) -> Seq<char> {
    let text = trim_spec(content);
    match strip_prefix_spec(text, "```"@) {
        None => text,
        Some(rest) => {
            let rest = match strip_prefix_spec(rest, "json"@) {
                Some(r) => r,
                None => rest,
            };
            match strip_prefix_spec(skip_blanks(rest), seq!['\n']) {
                None => text,
                Some(body) => match strip_suffix_spec(body, "```"@) {
                    None => text,
                    Some(b) => trim_spec(b),
                },
            }
        },
    }
}

/// Strips the code fence the model sometimes wraps its JSON in (see `fence_body`).
pub fn strip_code_fence(content: &str) -> (s: String)
    ensures
        s@ == fence_body(content@),
{
    proof {
        reveal_strlit("\n");
        assert("\n"@ =~= seq!['\n']);
    }
    let text = trim(content);
    let rest = match strip_prefix(text.as_str(), "```") {
        Some(r) => r,
        None => return text,
    };
    let rest = match strip_prefix(rest.as_str(), "json") {
        Some(r) => r,
        None => rest,
    };
    let after = skip_blanks_text(rest.as_str());
    let body = match strip_prefix(after.as_str(), "\n") {
        Some(b) => b,
        None => return text,
    };
    match strip_suffix(body.as_str(), "```") {
        Some(b) => trim(b.as_str()),
        None => text,
    }
}

/// The first `n` characters of `s` (all of it when shorter).
pub open spec fn first_chars(s: Seq<char>, n: nat) -> Seq<char> {
    if s.len() <= n {
        s
    } else {
        s.subrange(0, n as int)
    }
}

fn truncate_chars(s: &str, n: usize) -> (out: String)
    ensures
        out@ == first_chars(s@, n as nat),
{
    let v = chars_of(s);
    let end = if v.len() <= n { v.len() } else { n };
    let mut out = String::new();
    push_range(&mut out, &v, 0, end);
    assert(v@.subrange(0, v@.len() as int) =~= v@);
    out
}

/// The members without any named `k`.
pub open spec fn without_key(ms: Seq<(Seq<char>, JsonView)>, k: Seq<char>) -> Seq<(Seq<char>, JsonView)>
    decreases ms.len(),
{
    if ms.len() == 0 {
        seq![]
    } else {
        let r = without_key(ms.drop_last(), k);
        if ms.last().0 == k {
            r
        } else {
            r.push(ms.last())
        }
    }
}

/// The form of an intent object: its `form` member when that is an object; otherwise (the
/// model forgot the wrapper and spread the fields over the intent) the intent's own members
/// but `command`.
pub open spec fn item_form(ms: Seq<(Seq<char>, JsonView)>) -> JsonView {
    match jget(JsonView::Object(ms), "form"@) {
        Some(f) => if f is Object {
            f
        } else {
            JsonView::Object(without_key(ms, "command"@))
        },
        None => JsonView::Object(without_key(ms, "command"@)),
    }
}

/// The intents array read in order from an explanation `e`: each object whose `command` is
/// known becomes an intent (name and form); any other object, while no explanation is known
/// yet, gives its `explanation` (a model sometimes misplaces it into the array).
pub open spec fn scan(items: Seq<JsonView>, e: Seq<char>) -> (Seq<(Seq<char>, JsonView)>, Seq<char>)
    decreases items.len(),
{
    if items.len() == 0 {
        (seq![], e)
    } else {
        let (is, ex) = scan(items.drop_last(), e);
        match items.last() {
            JsonView::Object(ms) => match get_str(items.last(), "command"@) {
                Some(c) if known_command(c) => (is.push((c, item_form(ms))), ex),
                _ => if ex.len() == 0 {
                    match get_str(items.last(), "explanation"@) {
                        Some(x) => (is, x),
                        None => (is, ex),
                    }
                } else {
                    (is, ex)
                },
            },
            _ => (is, ex),
        }
    }
}

/// A top-level explanation is never replaced by one misplaced into the intents array.
pub proof fn lemma_top_level_explanation_wins(items: Seq<JsonView>, e: Seq<char>)
    requires
        e.len() > 0,
    ensures
        scan(items, e).1 == e,
    decreases items.len(),
{
    if items.len() > 0 {
        lemma_top_level_explanation_wins(items.drop_last(), e);
    }
}

/// The intents hold exactly the scanned names and forms, none unknown.
pub open spec fn intents_match(xs: Seq<CommandIntent>, scanned: Seq<(Seq<char>, JsonView)>) -> bool {
    &&& xs.len() == scanned.len()
    &&& forall|i: int|
        0 <= i < scanned.len() ==> intent_name(#[trigger] xs[i]) == scanned[i].0 && intent_form(xs[i])@ == scanned[i].1
            && !(xs[i] is Unknown)
}

/// The refusal of a reply that is not JSON: it quotes the first 200 characters.
pub open spec fn not_json_error(text: Seq<char>) -> Seq<char> {
    "无法解析 AI 返回的 JSON："@ + first_chars(text, 200)
}

/// The refusal of a document without an `intents` array.
pub open spec fn no_intents_error() -> Seq<char> {
    "AI 返回缺少 intents 数组。"@
}

/// What a reply gives: an error when it is not JSON or has no `intents` array; otherwise the
/// scanned intents, with the top-level `explanation` (empty when missing) taking priority
/// over one found in the array.
pub open spec fn parsed_spec(r: Result<ParsedAi, String>, text: Seq<char>, doc: Option<JsonView>) -> bool {
    match doc {
        None => r matches Err(e) && e@ == not_json_error(text),
        Some(d) => match jget(d, "intents"@) {
            Some(JsonView::Array(items)) => {
                let e0 = match get_str(d, "explanation"@) {
                    Some(x) => x,
                    None => seq![],
                };
                let sc = scan(items, e0);
                r matches Ok(p) && intents_match(p.intents@, sc.0) && p.explanation@ == sc.1
            },
            _ => r matches Err(e) && e@ == no_intents_error(),
        },
    }
}

fn form_of_item(item: &JsonValue, ms: &Vec<(String, JsonValue)>) -> (f: JsonValue)
    requires
        item@ == JsonView::Object(member_views(ms@)),
    ensures
        f@ == item_form(member_views(ms@)),
{
    match item.get("form") {
        Some(f) => {
            if f.is_object() {
                return f.copy();
            }
        },
        None => {},
    }
    proof {
        lemma_member_views(ms@);
    }
    let ghost mv = member_views(ms@);
    let mut out: Vec<(String, JsonValue)> = Vec::new();
    let mut i: usize = 0;
    while i < ms.len()
        invariant
            i <= ms@.len(),
            mv == member_views(ms@),
            mv.len() == ms@.len(),
            forall|j: int| 0 <= j < ms@.len() ==> #[trigger] mv[j] == (ms@[j].0@, ms@[j].1@),
            member_views(out@) == without_key(mv.subrange(0, i as int), "command"@),
        decreases ms@.len() - i,
    {
        proof {
            let next = mv.subrange(0, i + 1);
            assert(next.drop_last() =~= mv.subrange(0, i as int));
            assert(next.last() == mv[i as int]);
        }
        if !str_eq(ms[i].0.as_str(), "command") {
            let k = string_from(ms[i].0.as_str());
            let v = ms[i].1.copy();
            let ghost before = out@;
            out.push((k, v));
            proof {
                lemma_member_views(out@);
                lemma_member_views(before);
                assert(member_views(out@) =~= member_views(before).push(mv[i as int]));
            }
        }
        i = i + 1;
    }
    assert(mv.subrange(0, ms@.len() as int) =~= mv);
    JsonValue::Object(out)
}

/// Picks the intents out of a reply: `text` is the reply with its code fence stripped
/// (`strip_code_fence`), `doc` its JSON value, none when it is not JSON (see
/// `parsed_spec`).
pub fn parse_ai_content(text: &str, doc: Option<JsonValue>) -> (r: Result<ParsedAi, String>)
    ensures
        parsed_spec(
            r,
            text@,
            match doc {
                Some(d) => Some(d@),
                None => None,
            },
        ),
{
    let d = match doc {
        Some(d) => d,
        None => {
            let mut e = string_from("无法解析 AI 返回的 JSON：");
            push_str(&mut e, truncate_chars(text, 200).as_str());
            return Err(e);
        },
    };
    let items = match d.get("intents") {
        Some(x) => match x.as_array() {
            Some(a) => a,
            None => return Err(string_from("AI 返回缺少 intents 数组。")),
        },
        None => return Err(string_from("AI 返回缺少 intents 数组。")),
    };
    proof {
        lemma_views(items@);
    }
    let ghost s = views(items@);
    let ghost e0 = match get_str(d@, "explanation"@) {
        Some(x) => x,
        None => Seq::<char>::empty(),
    };
    let mut explanation = match get_string(&d, "explanation") {
        Some(x) => x,
        None => String::new(),
    };
    let mut intents: Vec<CommandIntent> = Vec::new();
    let mut i: usize = 0;
    while i < items.len()
        invariant
            i <= items@.len(),
            s == views(items@),
            s.len() == items@.len(),
            forall|j: int| 0 <= j < items@.len() ==> #[trigger] s[j] == items@[j]@,
            intents_match(intents@, scan(s.subrange(0, i as int), e0).0),
            explanation@ == scan(s.subrange(0, i as int), e0).1,
        decreases items@.len() - i,
    {
        let item = &items[i];
        proof {
            let next = s.subrange(0, i + 1);
            assert(next.drop_last() =~= s.subrange(0, i as int));
            assert(next.last() == item@);
        }
        match item {
            JsonValue::Object(ms) => {
                let command = get_string(item, "command");
                let known = match &command {
                    Some(c) => is_known(c.as_str()),
                    None => false,
                };
                if known {
                    let c = command.unwrap();
                    let form = form_of_item(item, ms);
                    let intent = CommandIntent::new(c.as_str(), form);
                    intents.push(intent);
                } else if explanation.unicode_len() == 0 {
                    match get_string(item, "explanation") {
                        Some(x) => {
                            explanation = x;
                        },
                        None => {},
                    }
                }
            },
            _ => {},
        }
        i = i + 1;
    }
    assert(s.subrange(0, items@.len() as int) =~= s);
    Ok(ParsedAi { intents, explanation })
}

fn is_known(c: &str) -> (b: bool)
    ensures
        b == known_command(c@),
{
    let mut i: usize = 0;
    while i < 14
        invariant
            i <= 14,
            forall|j: int| 0 <= j < i ==> c@ != (#[trigger] KNOWN_COMMANDS@[j])@,
        decreases 14 - i,
    {
        if str_eq(c, KNOWN_COMMANDS[i]) {
            proof {
                reveal_known();
            }
            return true;
        }
        i = i + 1;
    }
    proof {
        reveal_known();
    }
    false
}

proof fn reveal_known()
    ensures
        forall|c: Seq<char>| known_command(c) <==> exists|j: int| 0 <= j < 14 && c == (#[trigger] KNOWN_COMMANDS@[j])@,
{
    reveal_strlit("give");
    reveal_strlit("say");
    reveal_strlit("effect_give");
    reveal_strlit("effect_clear");
    reveal_strlit("tp");
    reveal_strlit("setblock");
    reveal_strlit("summon");
    reveal_strlit("fill");
    reveal_strlit("clone");
    reveal_strlit("enchant");
    reveal_strlit("execute");
    reveal_strlit("scoreboard");
    reveal_strlit("attribute");
    reveal_strlit("particle");
    assert forall|c: Seq<char>| known_command(c) <==> exists|j: int| 0 <= j < 14 && c == (#[trigger] KNOWN_COMMANDS@[j])@ by {
        if known_command(c) {
            if c == "give"@ { assert(c == KNOWN_COMMANDS@[0]@); }
            else if c == "say"@ { assert(c == KNOWN_COMMANDS@[1]@); }
            else if c == "effect_give"@ { assert(c == KNOWN_COMMANDS@[2]@); }
            else if c == "effect_clear"@ { assert(c == KNOWN_COMMANDS@[3]@); }
            else if c == "tp"@ { assert(c == KNOWN_COMMANDS@[4]@); }
            else if c == "setblock"@ { assert(c == KNOWN_COMMANDS@[5]@); }
            else if c == "summon"@ { assert(c == KNOWN_COMMANDS@[6]@); }
            else if c == "fill"@ { assert(c == KNOWN_COMMANDS@[7]@); }
            else if c == "clone"@ { assert(c == KNOWN_COMMANDS@[8]@); }
            else if c == "enchant"@ { assert(c == KNOWN_COMMANDS@[9]@); }
            else if c == "execute"@ { assert(c == KNOWN_COMMANDS@[10]@); }
            else if c == "scoreboard"@ { assert(c == KNOWN_COMMANDS@[11]@); }
            else if c == "attribute"@ { assert(c == KNOWN_COMMANDS@[12]@); }
            else { assert(c == KNOWN_COMMANDS@[13]@); }
        }
    }
}

} // verus!
