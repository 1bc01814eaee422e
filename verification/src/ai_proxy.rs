//! The AI proxy: the price list and the coins a call costs, the messages sent upstream, and
//! what is taken back from the reply. The upstream endpoint and key are the server's own; the
//! client only names the model.

use vstd::prelude::*;
use crate::text::{chars_of, is_white_space, char_is_whitespace, push_str, str_eq, string_from, push_range};

verus! {

/// One message of the conversation history (the client sends `user` and `assistant` turns).
pub struct ChatTurn {
    pub role: String,
    pub content: String,
}

/// Token counts reported by the upstream service.
#[derive(Clone, Copy)]
pub struct AiUsage {
    pub prompt: u32,
    pub completion: u32,
    pub total: u32,
}

/// The server's upstream configuration: endpoint, default model and key.
pub struct AiConfig {
    pub endpoint: String,
    pub model: String,
    pub key: String,
}

/// Coins charged when the upstream reply carries no usage.
pub const FALLBACK_COINS: i64 = 100;

/// Prices of a model in tenths of a yuan per million tokens: (input, output). Unknown
/// models are priced as `qwen-plus`; `qwen3.7-flash` costs more above 32k input tokens.
pub open spec fn price_tenths(model: Seq<char>, input_tokens: u32) -> (int, int) {
    if model == "qwen3.8-max"@ {
        (120, 360)
    } else if model == "qwen3.7-plus"@ || model == "qwen-plus"@ {
        (20, 80)
    } else if model == "qwen3.7-flash"@ {
        if input_tokens > 32000 {
            (6, 24)
        } else {
            (2, 8)
        }
    } else if model == "qwen-long-latest"@ || model == "qwen-long"@ {
        (5, 20)
    } else if model == "deepseek-v4-pro"@ {
        (120, 240)
    } else {
        (20, 80)
    }
}

/// The coins a call costs: 1500 coins per yuan spent, rounded up, never less than one;
/// `FALLBACK_COINS` when the usage is unknown. In tenths of a yuan per million tokens the
/// cost is `n = in·p_in + out·p_out`, so the coins are `ceil(n · 1500 / 10^7) = ceil(3n / 20000)`.
/// The ceiling is taken of the exact rational cost, so a cost of a whole number of coins is
/// charged as that number (no binary floating-point residue can push it one coin up).
pub open spec fn coins_spec(model: Seq<char>, usage: Option<AiUsage>) -> int {
    match usage {
        None => FALLBACK_COINS as int,
        Some(u) => {
            let (pi, po) = price_tenths(model, u.prompt);
            let n = u.prompt as int * pi + u.completion as int * po;
            let coins = (3 * n + 19999) / 20000;
            if coins > 1 {
                coins
            } else {
                1
            }
        },
    }
}

/// The price of `model` at `input_tokens` input tokens, in tenths of a yuan per million
/// tokens.
fn model_price(model: &str, input_tokens: u32) -> (p: (u64, u64))
    ensures
        (p.0 as int, p.1 as int) == price_tenths(model@, input_tokens),
{
    if str_eq(model, "qwen3.8-max") {
        (120, 360)
    } else if str_eq(model, "qwen3.7-plus") || str_eq(model, "qwen-plus") {
        (20, 80)
    } else if str_eq(model, "qwen3.7-flash") {
        if input_tokens > 32000 {
            (6, 24)
        } else {
            (2, 8)
        }
    } else if str_eq(model, "qwen-long-latest") || str_eq(model, "qwen-long") {
        (5, 20)
    } else if str_eq(model, "deepseek-v4-pro") {
        (120, 240)
    } else {
        (20, 80)
    }
}

/// The coins to charge for a call to `model` with the given usage (see `coins_spec`).
pub fn coins_to_charge(model: &str, usage: Option<&AiUsage>) -> (coins: i64)
    ensures
        coins == coins_spec(model@, match usage { Some(u) => Some(*u), None => None }),
        coins >= 1,
{
    match usage {
        None => FALLBACK_COINS,
        Some(u) => {
            let (pi, po) = model_price(model, u.prompt);
            assert(u.prompt as int * pi <= 0xFFFF_FFFF * 360) by (nonlinear_arith)
                requires
                    pi <= 360,
            ;
            assert(u.completion as int * po <= 0xFFFF_FFFF * 360) by (nonlinear_arith)
                requires
                    po <= 360,
            ;
            let n: u64 = (u.prompt as u64) * pi + (u.completion as u64) * po;
            let coins: u64 = (3 * n + 19999) / 20000;
            if coins > 1 {
                coins as i64
            } else {
                1
            }
        },
    }
}

/// The messages sent upstream: the system prompt, the history in order, then the user text.
pub open spec fn messages_spec(system_prompt: Seq<char>, user_text: Seq<char>, history: Seq<ChatTurn>) -> Seq<(Seq<char>, Seq<char>)> {
    seq![("system"@, system_prompt)] + Seq::new(history.len(), |i: int| (history[i].role@, history[i].content@)) + seq![
        ("user"@, user_text),
    ]
}

/// The (role, content) messages of a call, in the order they are sent.
pub fn chat_messages(system_prompt: &str, user_text: &str, history: Vec<ChatTurn>) -> (m: Vec<ChatTurn>)
    ensures
        Seq::new(m@.len(), |i: int| (m@[i].role@, m@[i].content@)) == messages_spec(system_prompt@, user_text@, history@),
{
    let ghost h = history@;
    let mut m: Vec<ChatTurn> = Vec::new();
    m.push(ChatTurn { role: string_from("system"), content: string_from(system_prompt) });
    let mut rest = history;
    let mut i: usize = 0;
    let n = rest.len();
    while i < n
        invariant
            n == h.len(),
            i <= n,
            rest@ == h.subrange(i as int, n as int),
            m@.len() == i + 1,
            m@[0].role@ == "system"@,
            m@[0].content@ == system_prompt@,
            forall|j: int| 0 <= j < i ==> (#[trigger] m@[j + 1]).role@ == h[j].role@ && m@[j + 1].content@ == h[j].content@,
        decreases n - i,
    {
        let t = rest.remove(0);
        m.push(t);
        assert(rest@ =~= h.subrange(i + 1, n as int));
        i = i + 1;
    }
    let ghost before = m@;
    m.push(ChatTurn { role: string_from("user"), content: string_from(user_text) });
    proof {
        let want = messages_spec(system_prompt@, user_text@, h);
        let got = Seq::new(m@.len(), |i: int| (m@[i].role@, m@[i].content@));
        assert(got.len() == want.len());
        assert forall|k: int| 0 <= k < got.len() implies got[k] == want[k] by {
            if k == 0 {
            } else if k <= n {
                assert(m@[k] == before[k]);
                let j = k - 1;
                assert(before[j + 1].role@ == h[j].role@);
            } else {
            }
        }
    }
    assert(Seq::new(m@.len(), |i: int| (m@[i].role@, m@[i].content@)) =~= messages_spec(system_prompt@, user_text@, h));
    m
}

/// The usage of a reply from its three counters (a missing counter is zero; each is cut to 32
/// bits as `as u32` does).
pub fn usage_from_counts(prompt: Option<u64>, completion: Option<u64>, total: Option<u64>) -> (u: AiUsage)
    ensures
        u.prompt == (match prompt { Some(p) => p, None => 0u64 }) as u32,
        u.completion == (match completion { Some(c) => c, None => 0u64 }) as u32,
        u.total == (match total { Some(t) => t, None => 0u64 }) as u32,
{
    let p: u64 = match prompt { Some(p) => p, None => 0 };
    let c: u64 = match completion { Some(c) => c, None => 0 };
    let t: u64 = match total { Some(t) => t, None => 0 };
    AiUsage { prompt: p as u32, completion: c as u32, total: t as u32 }
}

/// `s` has a character that is not white space.
pub open spec fn has_content(s: Seq<char>) -> bool {
    exists|i: int| 0 <= i < s.len() && !is_white_space(#[trigger] s[i])
}

/// The content of a reply: refused when missing or only white space.
pub fn reply_content(content: Option<String>) -> (r: Result<String, String>)
    ensures
        match content {
            Some(c) => if has_content(c@) {
                r is Ok && r->Ok_0@ == c@
            } else {
                r is Err && r->Err_0@ == "大模型响应为空。"@
            },
            None => r is Err && r->Err_0@ == "大模型响应为空。"@,
        },
{
    match content {
        Some(c) => if text_has_content(c.as_str()) {
            Ok(c)
        } else {
            Err(string_from("大模型响应为空。"))
        },
        None => Err(string_from("大模型响应为空。")),
    }
}

fn text_has_content(s: &str) -> (b: bool)
    ensures
        b == has_content(s@),
{
    let v = chars_of(s);
    let mut i: usize = 0;
    while i < v.len()
        invariant
            v@ == s@,
            i <= v@.len(),
            forall|j: int| 0 <= j < i ==> is_white_space(#[trigger] v@[j]),
        decreases v@.len() - i,
    {
        if !char_is_whitespace(v[i]) {
            assert(!is_white_space(s@[i as int]));
            return true;
        }
        i = i + 1;
    }
    false
}

/// The error shown for a failed upstream status: the status and the first 300 characters of
/// the body.
pub fn upstream_status_error(status: &str, body: &str) -> (e: String)
    ensures
        e@ == "大模型接口返回 "@ + status@ + "："@ + (if body@.len() <= 300 { body@ } else { body@.subrange(0, 300) }),
{
    let v = chars_of(body);
    let cut: usize = if v.len() <= 300 { v.len() } else { 300 };
    let mut e = string_from("大模型接口返回 ");
    push_str(&mut e, status);
    push_str(&mut e, "：");
    push_range(&mut e, &v, 0, cut);
    proof {
        if v@.len() <= 300 {
            assert(v@.subrange(0, cut as int) =~= v@);
        }
    }
    e
}

/// The price list, in tenths of a yuan per million input / output tokens: `qwen3.8-max` 12 / 36,
/// `qwen3.7-plus` and `qwen-plus` 2 / 8, `qwen3.7-flash` 0.2 / 0.8 up to 32 000 input tokens and
/// 0.6 / 2.4 beyond, `qwen-long-latest` and `qwen-long` 0.5 / 2, `deepseek-v4-pro` 12 / 24.
pub proof fn lemma_price_list(n: u32)
    ensures
        price_tenths("qwen3.8-max"@, n) == (120int, 360int),
        price_tenths("qwen3.7-plus"@, n) == (20int, 80int),
        price_tenths("qwen-plus"@, n) == (20int, 80int),
        price_tenths("qwen3.7-flash"@, n) == (if n > 32000 { (6int, 24int) } else { (2int, 8int) }),
        price_tenths("qwen-long-latest"@, n) == (5int, 20int),
        price_tenths("qwen-long"@, n) == (5int, 20int),
        price_tenths("deepseek-v4-pro"@, n) == (120int, 240int),
{
    reveal_strlit("qwen3.8-max");
    reveal_strlit("qwen3.7-plus");
    reveal_strlit("qwen-plus");
    reveal_strlit("qwen3.7-flash");
    reveal_strlit("qwen-long-latest");
    reveal_strlit("qwen-long");
    reveal_strlit("deepseek-v4-pro");
    assert("qwen3.7-plus"@.len() != "qwen3.8-max"@.len());
    assert("qwen3.7-plus"@ != "qwen3.8-max"@);
    assert("qwen-plus"@.len() != "qwen3.8-max"@.len());
    assert("qwen-plus"@ != "qwen3.8-max"@);
    assert("qwen-plus"@.len() != "qwen3.7-plus"@.len());
    assert("qwen-plus"@ != "qwen3.7-plus"@);
    assert("qwen3.7-flash"@.len() != "qwen3.8-max"@.len());
    assert("qwen3.7-flash"@ != "qwen3.8-max"@);
    assert("qwen3.7-flash"@.len() != "qwen3.7-plus"@.len());
    assert("qwen3.7-flash"@ != "qwen3.7-plus"@);
    assert("qwen3.7-flash"@.len() != "qwen-plus"@.len());
    assert("qwen3.7-flash"@ != "qwen-plus"@);
    assert("qwen-long-latest"@.len() != "qwen3.8-max"@.len());
    assert("qwen-long-latest"@ != "qwen3.8-max"@);
    assert("qwen-long-latest"@.len() != "qwen3.7-plus"@.len());
    assert("qwen-long-latest"@ != "qwen3.7-plus"@);
    assert("qwen-long-latest"@.len() != "qwen-plus"@.len());
    assert("qwen-long-latest"@ != "qwen-plus"@);
    assert("qwen-long-latest"@.len() != "qwen3.7-flash"@.len());
    assert("qwen-long-latest"@ != "qwen3.7-flash"@);
    assert("qwen-long"@.len() != "qwen3.8-max"@.len());
    assert("qwen-long"@ != "qwen3.8-max"@);
    assert("qwen-long"@.len() != "qwen3.7-plus"@.len());
    assert("qwen-long"@ != "qwen3.7-plus"@);
    assert("qwen-long"@[5] != "qwen-plus"@[5]);
    assert("qwen-long"@ != "qwen-plus"@);
    assert("qwen-long"@.len() != "qwen3.7-flash"@.len());
    assert("qwen-long"@ != "qwen3.7-flash"@);
    assert("qwen-long"@.len() != "qwen-long-latest"@.len());
    assert("qwen-long"@ != "qwen-long-latest"@);
    assert("deepseek-v4-pro"@.len() != "qwen3.8-max"@.len());
    assert("deepseek-v4-pro"@ != "qwen3.8-max"@);
    assert("deepseek-v4-pro"@.len() != "qwen3.7-plus"@.len());
    assert("deepseek-v4-pro"@ != "qwen3.7-plus"@);
    assert("deepseek-v4-pro"@.len() != "qwen-plus"@.len());
    assert("deepseek-v4-pro"@ != "qwen-plus"@);
    assert("deepseek-v4-pro"@.len() != "qwen3.7-flash"@.len());
    assert("deepseek-v4-pro"@ != "qwen3.7-flash"@);
    assert("deepseek-v4-pro"@.len() != "qwen-long-latest"@.len());
    assert("deepseek-v4-pro"@ != "qwen-long-latest"@);
    assert("deepseek-v4-pro"@.len() != "qwen-long"@.len());
    assert("deepseek-v4-pro"@ != "qwen-long"@);
}

/// `qwen-long-latest` and `qwen-long` cost the same for the same usage: 1500 coins per yuan at
/// 0.5 yuan per million input tokens and 2 per million output tokens, rounded up, at least one.
pub proof fn lemma_qwen_long_billed_alike(u: AiUsage)
    ensures
        coins_spec("qwen-long-latest"@, Some(u)) == coins_spec("qwen-long"@, Some(u)),
        coins_spec("qwen-long"@, Some(u)) == ({
            let c = (3 * (5 * u.prompt as int + 20 * u.completion as int) + 19999) / 20000;
            if c > 1 {
                c
            } else {
                1
            }
        }),
{
    lemma_price_list(u.prompt);
}

} // verus!
