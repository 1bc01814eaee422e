//! SMS verification codes through Aliyun's number authentication service: templates and
//! purposes, the RPC request signature (percent-encoding, canonical query string,
//! HMAC-SHA1, base64), and the UTC timestamp the signature carries.

use vstd::prelude::*;
use vstd::string::StringSliceAdditionalSpecFns;
use vstd::utf8::encode_utf8;
use crate::crypto::{base64_standard, base64_standard_encode, hmac_sha1, hmac_sha1_tag, random_bytes};
use crate::text::{is_digit, str_eq, eq_ignore_ascii_case, eq_ignore_case};
use crate::store::now_secs;
use crate::text::{decimal_digits, padded, push_char, push_str, push_u64, string_from};

verus! {

/// Aliyun's built-in template for sign-up / log-in codes.
pub const TEMPLATE_REGISTER: &'static str = "100001";
/// Aliyun's built-in template for password-reset codes.
pub const TEMPLATE_RESET: &'static str = "100003";

/// How long a code stays valid, in seconds.
pub const CODE_VALID_SECS: u32 = 300;
/// Minimum interval between two sends to one number, enforced by Aliyun, in seconds.
pub const SEND_INTERVAL_SECS: u32 = 60;
/// Digits in a code.
pub const CODE_LENGTH: u32 = 6;

/// Why a code is sent.
#[derive(Clone, Copy, Debug, PartialEq, Eq, Structural)]
pub enum Purpose {
    Register,
    Reset,
}

/// The template of a purpose.
pub open spec fn template_of(p: Purpose) -> Seq<char> {
    match p {
        Purpose::Register => "100001"@,
        Purpose::Reset => "100003"@,
    }
}

/// The pending-table key prefix of a purpose.
pub open spec fn prefix_of(p: Purpose) -> Seq<char> {
    match p {
        Purpose::Register => "register"@,
        Purpose::Reset => "reset"@,
    }
}

impl Purpose {
    /// The Aliyun template code for this purpose.
    pub fn template(self) -> (t: &'static str)
        ensures
            t@ == template_of(self),
    {
        match self {
            Purpose::Register => TEMPLATE_REGISTER,
            Purpose::Reset => TEMPLATE_RESET,
        }
    }

    /// The prefix of this purpose's pending-table keys. The two purposes must differ: with a
    /// shared slot, a sign-up request could overwrite a password reset in flight.
    pub fn key_prefix(self) -> (p: &'static str)
        ensures
            p@ == prefix_of(self),
    {
        match self {
            Purpose::Register => "register",
            Purpose::Reset => "reset",
        }
    }
}

// ---------------------------------------------------------------- percent-encoding

/// Bytes left as they are by Aliyun's encoding: ASCII letters, digits and `-_.~`.
pub open spec fn is_unreserved(b: u8) -> bool {
    ||| (65 <= b && b <= 90)
    ||| (97 <= b && b <= 122)
    ||| (48 <= b && b <= 57)
    ||| b == 45
    ||| b == 95
    ||| b == 46
    ||| b == 126
}

/// The upper-case hexadecimal digit of `n < 16`.
pub open spec fn hex_digit(n: int) -> char {
    if n < 10 {
        (48 + n) as char
    } else {
        (55 + n) as char
    }
}

/// One byte, encoded: itself when unreserved, otherwise `%XX` in upper-case hex.
pub open spec fn encode_byte(b: u8) -> Seq<char> {
    if is_unreserved(b) {
        seq![b as char]
    } else {
        seq!['%', hex_digit(b as int / 16), hex_digit(b as int % 16)]
    }
}

/// Aliyun's percent-encoding of a byte string (RFC 3986 unreserved set: a space is `%20`,
/// `*` is `%2A`, `~` stays).
pub open spec fn percent_encode_spec(bytes: Seq<u8>) -> Seq<char>
    decreases bytes.len(),
{
    if bytes.len() == 0 {
        seq![]
    } else {
        percent_encode_spec(bytes.drop_last()) + encode_byte(bytes.last())
    }
}

fn hex_char(n: u8) -> (c: char)
    requires
        n < 16,
    ensures
        c == hex_digit(n as int),
{
    if n < 10 {
        (48u8 + n) as char
    } else {
        (55u8 + n) as char
    }
}

/// The percent-encoding Aliyun's RPC signature requires, byte by byte over the UTF-8 text.
pub fn percent_encode(s: &str) -> (out: String)
    ensures
        out@ == percent_encode_spec(s.spec_bytes()),
{
    let bytes = s.as_bytes();
    let mut out = String::new();
    let mut i: usize = 0;
    while i < bytes.len()
        invariant
            bytes@ == s.spec_bytes(),
            i <= bytes@.len(),
            out@ == percent_encode_spec(bytes@.subrange(0, i as int)),
        decreases bytes@.len() - i,
    {
        let b = bytes[i];
        proof {
            let next = bytes@.subrange(0, i + 1);
            assert(next.drop_last() =~= bytes@.subrange(0, i as int));
        }
        if (65 <= b && b <= 90) || (97 <= b && b <= 122) || (48 <= b && b <= 57) || b == 45 || b == 95 || b == 46
            || b == 126 {
            push_char(&mut out, b as char);
        } else {
            push_char(&mut out, '%');
            push_char(&mut out, hex_char(b / 16));
            push_char(&mut out, hex_char(b % 16));
        }
        i = i + 1;
    }
    assert(bytes@.subrange(0, bytes@.len() as int) =~= bytes@);
    out
}

// ---------------------------------------------------------------- UTC timestamps

/// Howard Hinnant's `civil_from_days` on a day count since 1970-01-01 that is not negative:
/// the (year, month, day) of the proleptic Gregorian calendar.
pub open spec fn civil_from_days(days: int) -> (int, int, int) {
    let z = days + 719468;
    let era = z / 146097;
    let doe = z - era * 146097;
    let yoe = (doe - doe / 1460 + doe / 36524 - doe / 146096) / 365;
    let y = yoe + era * 400;
    let doy = doe - (365 * yoe + yoe / 4 - yoe / 100);
    let mp = (5 * doy + 2) / 153;
    let d = doy - (153 * mp + 2) / 5 + 1;
    let m = if mp < 10 { mp + 3 } else { mp - 9 };
    (if m <= 2 { y + 1 } else { y }, m, d)
}

/// The UTC calendar date and time of `secs` seconds after the epoch.
pub open spec fn civil_from_unix_spec(secs: u64) -> (int, int, int, int, int, int) {
    let (y, m, d) = civil_from_days(secs as int / 86400);
    let rem = secs as int % 86400;
    (y, m, d, rem / 3600, rem % 3600 / 60, rem % 60)
}

/// The UTC calendar date and time of a Unix time, in whole integers (no time zone data).
pub fn civil_from_unix(secs: u64) -> (r: (i64, u32, u32, u32, u32, u32))
    ensures
        (r.0 as int, r.1 as int, r.2 as int, r.3 as int, r.4 as int, r.5 as int) == civil_from_unix_spec(secs),
        1 <= r.1 <= 12,
        1 <= r.2 <= 31,
        r.3 < 24 && r.4 < 60 && r.5 < 60,
        secs < 253402300800 ==> 1970 <= r.0 <= 9999,
{
    let days: i64 = (secs / 86400) as i64;
    let rem: u64 = secs % 86400;
    let z: i64 = days + 719_468;
    let era: i64 = z / 146_097;
    let doe: i64 = z - era * 146_097;
    let yoe: i64 = (doe - doe / 1460 + doe / 36524 - doe / 146_096) / 365;
    let y: i64 = yoe + era * 400;
    let doy: i64 = doe - (365 * yoe + yoe / 4 - yoe / 100);
    let mp: i64 = (5 * doy + 2) / 153;
    proof {
        lemma_civil_ranges(days as int);
    }
    let d: u32 = (doy - (153 * mp + 2) / 5 + 1) as u32;
    let m: u32 = (if mp < 10 { mp + 3 } else { mp - 9 }) as u32;
    let y: i64 = if m <= 2 { y + 1 } else { y };
    proof {
        if secs < 253402300800 {
            lemma_civil_year_bound(days as int);
        }
    }
    (y, m, d, (rem / 3600) as u32, ((rem % 3600) / 60) as u32, (rem % 60) as u32)
}

proof fn lemma_civil_ranges(days: int)
    requires
        0 <= days <= u64::MAX / 86400,
    ensures
        ({
            let (y, m, d) = civil_from_days(days);
            1 <= m <= 12 && 1 <= d <= 31 && y >= 1970
        }),
        ({
            let z = days + 719468;
            let era = z / 146097;
            let doe = z - era * 146097;
            let yoe = (doe - doe / 1460 + doe / 36524 - doe / 146096) / 365;
            let doy = doe - (365 * yoe + yoe / 4 - yoe / 100);
            &&& 0 <= era
            &&& 0 <= doe < 146097
            &&& 0 <= yoe < 400
            &&& 0 <= doy < 366
            &&& 0 <= (5 * doy + 2) / 153 < 12
        }),
{
    let z = days + 719468;
    let era = z / 146097;
    let doe = z - era * 146097;
    assert(0 <= doe < 146097);
    let yoe = (doe - doe / 1460 + doe / 36524 - doe / 146096) / 365;
    assert(0 <= yoe < 400) by (nonlinear_arith)
        requires
            0 <= doe < 146097,
            yoe == (doe - doe / 1460 + doe / 36524 - doe / 146096) / 365,
    ;
    let doy = doe - (365 * yoe + yoe / 4 - yoe / 100);
    assert(0 <= doy < 366) by (nonlinear_arith)
        requires
            0 <= doe < 146097,
            yoe == (doe - doe / 1460 + doe / 36524 - doe / 146096) / 365,
            doy == doe - (365 * yoe + yoe / 4 - yoe / 100),
    ;
    let mp = (5 * doy + 2) / 153;
    assert(0 <= mp < 12);
    let d = doy - (153 * mp + 2) / 5 + 1;
    assert(1 <= d <= 31);
}

proof fn lemma_civil_year_bound(days: int)
    requires
        0 <= days < 2932897,
    ensures
        civil_from_days(days).0 <= 9999,
{
    lemma_civil_ranges(days);
    let z = days + 719468;
    let era = z / 146097;
    assert(era <= 24);
}

/// `2026-08-14T05:12:33Z`: the ISO 8601 UTC form Aliyun expects.
pub open spec fn timestamp_text(secs: u64) -> Seq<char> {
    let (y, mo, d, h, mi, s) = civil_from_unix_spec(secs);
    padded(y as nat, 4) + seq!['-'] + padded(mo as nat, 2) + seq!['-'] + padded(d as nat, 2) + seq!['T'] + padded(
        h as nat,
        2,
    ) + seq![':'] + padded(mi as nat, 2) + seq![':'] + padded(s as nat, 2) + seq!['Z']
}

proof fn lemma_digits_len(n: nat)
    ensures
        decimal_digits(n).len() >= 1,
        n < 10 ==> decimal_digits(n).len() == 1,
        10 <= n < 100 ==> decimal_digits(n).len() == 2,
        100 <= n < 1000 ==> decimal_digits(n).len() == 3,
        1000 <= n < 10000 ==> decimal_digits(n).len() == 4,
        10000 <= n ==> decimal_digits(n).len() >= 5,
    decreases n,
{
    if n >= 10 {
        lemma_digits_len(n / 10);
    }
}

fn push_padded(s: &mut String, n: u64, width: u64)
    requires
        width <= 4,
    ensures
        final(s)@ == old(s)@ + padded(n as nat, width as nat),
{
    proof {
        lemma_digits_len(n as nat);
    }
    let len: u64 = if n < 10 { 1 } else if n < 100 { 2 } else if n < 1000 { 3 } else if n < 10000 { 4 } else { 5 };
    assert(len >= 5 || len == decimal_digits(n as nat).len());
    let ghost start = s@;
    let mut k: u64 = len;
    while k < width
        invariant
            len <= k,
            k <= width || width < len,
            width < len ==> k == len,
            width <= 4,
            len >= 5 || len == decimal_digits(n as nat).len(),
            s@ == start + Seq::new((k - len) as nat, |i: int| '0'),
        decreases width - k,
    {
        push_char(s, '0');
        k = k + 1;
        assert(s@ =~= start + Seq::new((k - len) as nat, |i: int| '0'));
    }
    let ghost zeros = s@;
    push_u64(s, n);
    proof {
        if decimal_digits(n as nat).len() >= width {
            assert(zeros =~= start);
        } else {
            assert(k == width);
        }
        assert(s@ =~= start + padded(n as nat, width as nat));
    }
}

/// The ISO 8601 UTC text of a Unix time.
pub fn format_timestamp(secs: u64) -> (t: String)
    ensures
        t@ == timestamp_text(secs),
        secs < 253402300800 ==> t@.len() == 20,
{
    let (y, mo, d, h, mi, s) = civil_from_unix(secs);
    let mut t = String::new();
    push_padded(&mut t, y as u64, 4);
    push_char(&mut t, '-');
    push_padded(&mut t, mo as u64, 2);
    push_char(&mut t, '-');
    push_padded(&mut t, d as u64, 2);
    push_char(&mut t, 'T');
    push_padded(&mut t, h as u64, 2);
    push_char(&mut t, ':');
    push_padded(&mut t, mi as u64, 2);
    push_char(&mut t, ':');
    push_padded(&mut t, s as u64, 2);
    push_char(&mut t, 'Z');
    proof {
        assert(t@ =~= timestamp_text(secs));
        if secs < 253402300800 {
            lemma_digits_len(y as nat);
            lemma_digits_len(mo as nat);
            lemma_digits_len(d as nat);
            lemma_digits_len(h as nat);
            lemma_digits_len(mi as nat);
            lemma_digits_len(s as nat);
        }
    }
    t
}

/// The current time in the form Aliyun's signature carries: whatever the clock read, the text
/// is `timestamp_text` of that time.
pub fn utc_timestamp() -> (t: String)
    ensures
        exists|secs: u64| t@ == timestamp_text(secs),
{
    let secs = now_secs();
    format_timestamp(secs)
}

// ---------------------------------------------------------------- RPC signature

/// `a` sorts strictly before `b`, character by character.
pub open spec fn text_less(a: Seq<char>, b: Seq<char>) -> bool
    decreases a.len(),
{
    if a.len() == 0 {
        b.len() > 0
    } else if b.len() == 0 {
        false
    } else if a[0] != b[0] {
        a[0] < b[0]
    } else {
        text_less(a.drop_first(), b.drop_first())
    }
}

/// The parameter names are in strictly ascending order, as a sorted map yields them.
pub open spec fn keys_ascending(params: Seq<(String, String)>) -> bool {
    forall|i: int| 0 <= i < params.len() - 1 ==> text_less(#[trigger] params[i].0@, params[i + 1].0@)
}

/// One `name=value` pair of the canonical query string, both sides percent-encoded.
pub open spec fn query_pair(name: Seq<char>, value: Seq<char>) -> Seq<char> {
    percent_encode_spec(encode_utf8(name)) + seq!['='] + percent_encode_spec(encode_utf8(value))
}

/// The canonical query string: the encoded pairs, in order, joined by `&`.
pub open spec fn canonical_query(params: Seq<(String, String)>) -> Seq<char>
    decreases params.len(),
{
    if params.len() == 0 {
        seq![]
    } else if params.len() == 1 {
        query_pair(params[0].0@, params[0].1@)
    } else {
        canonical_query(params.drop_last()) + seq!['&'] + query_pair(params.last().0@, params.last().1@)
    }
}

/// The string Aliyun signs: `method & encode("/") & encode(canonical query)`.
pub open spec fn string_to_sign(method: Seq<char>, params: Seq<(String, String)>) -> Seq<char> {
    method + seq!['&'] + percent_encode_spec(encode_utf8(seq!['/'])) + seq!['&'] + percent_encode_spec(
        encode_utf8(canonical_query(params)),
    )
}

/// The RPC signature: base64 of the HMAC-SHA1 of the string to sign, keyed by the secret
/// followed by `&`.
pub open spec fn signature_spec(secret: Seq<char>, method: Seq<char>, params: Seq<(String, String)>) -> Seq<char> {
    base64_standard(hmac_sha1_tag(encode_utf8(secret + seq!['&']), encode_utf8(string_to_sign(method, params))))
}

/// Signs an Aliyun RPC request. `params` are the request parameters in ascending name order,
/// the order the signature covers them in.
pub fn sign(access_key_secret: &str, method: &str, params: &Vec<(String, String)>) -> (sig: String)
    requires
        keys_ascending(params@),
    ensures
        sig@ == signature_spec(access_key_secret@, method@, params@),
{
    let mut canonical = String::new();
    let mut i: usize = 0;
    while i < params.len()
        invariant
            i <= params@.len(),
            canonical@ == canonical_query(params@.subrange(0, i as int)),
        decreases params@.len() - i,
    {
        let ghost before = canonical@;
        if i > 0 {
            push_char(&mut canonical, '&');
        }
        let k = percent_encode(params[i].0.as_str());
        let v = percent_encode(params[i].1.as_str());
        push_str(&mut canonical, k.as_str());
        push_char(&mut canonical, '=');
        push_str(&mut canonical, v.as_str());
        proof {
            let next = params@.subrange(0, i + 1);
            assert(next.drop_last() =~= params@.subrange(0, i as int));
            if i == 0 {
                assert(canonical@ =~= canonical_query(next));
            } else {
                assert(canonical@ =~= canonical_query(next));
            }
        }
        i = i + 1;
    }
    assert(params@.subrange(0, params@.len() as int) =~= params@);
    let mut to_sign = string_from(method);
    push_char(&mut to_sign, '&');
    let slash = percent_encode("/");
    push_str(&mut to_sign, slash.as_str());
    push_char(&mut to_sign, '&');
    let enc = percent_encode(canonical.as_str());
    push_str(&mut to_sign, enc.as_str());
    let mut key = string_from(access_key_secret);
    push_char(&mut key, '&');
    proof {
        reveal_strlit("/");
        assert("/"@ =~= seq!['/']);
        assert(to_sign@ =~= string_to_sign(method@, params@));
        assert(key@ =~= access_key_secret@ + seq!['&']);
    }
    let mac = hmac_sha1(key.as_str().as_bytes(), to_sign.as_str().as_bytes());
    base64_standard_encode(mac.as_slice())
}

// ---------------------------------------------------------------- senders and replies

/// Aliyun credentials and endpoint.
#[derive(Clone)]
pub struct AliyunConfig {
    pub access_key_id: String,
    pub access_key_secret: String,
    /// The name of the built-in signature, as shown in the Aliyun console.
    pub sign_name: String,
    /// Host of the API, `dypnsapi.aliyuncs.com` by default.
    pub endpoint: String,
}

/// Where codes go: only to the log (development and fallback), or through Aliyun.
#[derive(Clone)]
pub enum Sender {
    Log,
    Aliyun(AliyunConfig),
}

impl Sender {
    /// Codes are only written to the log.
    pub fn is_log(&self) -> (b: bool)
        ensures
            b == (self is Log),
    {
        match self {
            Sender::Log => true,
            Sender::Aliyun(_) => false,
        }
    }
}

/// The code made from random bytes: one decimal digit per byte, `b % 10`.
pub open spec fn code_from_bytes(raw: Seq<u8>) -> Seq<char> {
    Seq::new(raw.len(), |i: int| (48 + raw[i] % 10) as char)
}

/// A fresh six-digit code for the log sender, which generates codes itself.
pub fn generate_code() -> (code: String)
    ensures
        code@.len() == CODE_LENGTH,
        forall|i: int| 0 <= i < code@.len() ==> is_digit(#[trigger] code@[i]),
        exists|raw: Seq<u8>| raw.len() == CODE_LENGTH && code@ == code_from_bytes(raw),
{
    let raw = random_bytes(6);
    let mut code = String::new();
    let mut i: usize = 0;
    while i < 6
        invariant
            raw@.len() == 6,
            i <= 6,
            code@ == code_from_bytes(raw@.subrange(0, i as int)),
        decreases 6 - i,
    {
        push_char(&mut code, (48u8 + raw[i] % 10) as char);
        i = i + 1;
        assert(code@ =~= code_from_bytes(raw@.subrange(0, i as int)));
    }
    assert(raw@.subrange(0, 6) =~= raw@);
    code
}

/// The fields of an Aliyun reply that the decisions read.
pub struct ApiReply {
    pub code: Option<String>,
    pub message: Option<String>,
    pub verify_result: Option<String>,
}

/// `Aliyun SMS returned <code>: <message>`, with `(无)` for a missing field.
pub open spec fn describe_spec(code: Option<String>, message: Option<String>) -> Seq<char> {
    "阿里云短信接口返回 "@ + (match code {
        Some(c) => c@,
        None => "(无)"@,
    }) + "："@ + (match message {
        Some(m) => m@,
        None => "(无)"@,
    })
}

/// A one-line description of a failed reply, for the log and for interface errors.
pub fn describe_error(resp: &ApiReply) -> (s: String)
    ensures
        s@ == describe_spec(resp.code, resp.message),
{
    let mut s = string_from("阿里云短信接口返回 ");
    match &resp.code {
        Some(c) => push_str(&mut s, c.as_str()),
        None => push_str(&mut s, "(无)"),
    }
    push_str(&mut s, "：");
    match &resp.message {
        Some(m) => push_str(&mut s, m.as_str()),
        None => push_str(&mut s, "(无)"),
    }
    s
}

/// The user-facing result of a send reply, by its code.
pub open spec fn send_verdict(code: Option<String>) -> Result<(), Seq<char>> {
    match code {
        Some(c) => if c@ == "OK"@ {
            Ok(())
        } else if c@ == "MOBILE_NUMBER_ILLEGAL"@ {
            Err("手机号格式不正确。"@)
        } else if c@ == "BUSINESS_LIMIT_CONTROL"@ || c@ == "FREQUENCY_FAIL"@ {
            Err("验证码发送太频繁了，请稍后再试。"@)
        } else if c@ == "FUNCTION_NOT_OPENED"@ {
            Err("短信服务暂时不可用，请稍后再试。"@)
        } else {
            Err("验证码发送失败，请稍后重试。"@)
        },
        None => Err("验证码发送失败，请稍后重试。"@),
    }
}

/// Translates the code of a send reply into what the user is told.
pub fn interpret_send_error(resp: &ApiReply) -> (r: Result<(), String>)
    ensures
        match send_verdict(resp.code) {
            Ok(()) => r is Ok,
            Err(m) => r is Err && r->Err_0@ == m,
        },
{
    match &resp.code {
        Some(c) => {
            if str_eq(c.as_str(), "OK") {
                Ok(())
            } else if str_eq(c.as_str(), "MOBILE_NUMBER_ILLEGAL") {
                Err(string_from("手机号格式不正确。"))
            } else if str_eq(c.as_str(), "BUSINESS_LIMIT_CONTROL") || str_eq(c.as_str(), "FREQUENCY_FAIL") {
                Err(string_from("验证码发送太频繁了，请稍后再试。"))
            } else if str_eq(c.as_str(), "FUNCTION_NOT_OPENED") {
                Err(string_from("短信服务暂时不可用，请稍后再试。"))
            } else {
                Err(string_from("验证码发送失败，请稍后重试。"))
            }
        },
        None => Err(string_from("验证码发送失败，请稍后重试。")),
    }
}

/// The verdict of a check reply: an interface failure (code other than `OK`) is an error with
/// the description, otherwise the code passed when the verify result is `PASS` in any case.
pub fn interpret_check(resp: &ApiReply) -> (r: Result<bool, String>)
    ensures
        !(resp.code matches Some(c) && c@ == "OK"@) ==> r is Err && r->Err_0@ == describe_spec(resp.code, resp.message),
        (resp.code matches Some(c) && c@ == "OK"@) ==> r is Ok && r->Ok_0 == (match resp.verify_result {
            Some(v) => eq_ignore_case(v@, "PASS"@),
            None => eq_ignore_case(""@, "PASS"@),
        }),
{
    let ok = match &resp.code {
        Some(c) => str_eq(c.as_str(), "OK"),
        None => false,
    };
    if !ok {
        return Err(describe_error(resp));
    }
    let passed = match &resp.verify_result {
        Some(v) => eq_ignore_ascii_case(v.as_str(), "PASS"),
        None => eq_ignore_ascii_case("", "PASS"),
    };
    Ok(passed)
}

} // verus!
