//! The server's request flows as state machines: sign-up (both steps and the resend), log-in,
//! password reset (both steps), password change, the check of a verification code, and AI
//! generation. Each step takes the state and what the caller reports, and gives the next state
//! and the action to perform (a look-up, a hash, an SMS, a model call, a write, an answer).
//! The decisions stand here: what is refused, with which status and words, and in what order;
//! that rate limits come before any password hash; that sign-up hashes whether or not the
//! phone is registered and answers a registered phone as a new one, with no code sent and
//! nothing stored; that a locked-out or unknown account is told what any other account would
//! be told; and that a model reply is charged whether or not it can be used.

use vstd::prelude::*;
use crate::ai_proxy::{coins_spec, coins_to_charge, AiUsage};
use crate::auth::{
    check_outcome, check_sms_quota_at, local_code_matches, login_locked_at, normalize_code, normalize_username_key,
    password_error, pending_gate, pending_key, pending_key_spec, quota_key, refund_outcome, sms_quota_outcome,
    username_error, username_key_spec, validate_password, validate_username, PendingVerification, RateLimiter, User,
    LOGIN_ACCOUNT_LIMIT, LOGIN_IP_LIMIT, LOGIN_WINDOW_SECS, MAX_VERIFY_ATTEMPTS, PENDING_TTL_SECS,
};
use crate::crypto::{
    base64_url_nopad, digits_of, hmac_sha256, hmac_sha256_tag, normalize_phone, normalize_phone_spec, random_token, PBKDF2_ITERATIONS,
    TOKEN_BYTES,
};
use crate::give::builder::GiveVersion;
use crate::give::catalog::GiveCatalogs;
use crate::give::dispatch::{counter_chain, dispatch_intents, dispatched, split_results, split_spec, DispatchResult};
use crate::give::json::{texts, JsonValue, JsonView};
use crate::give::parse::{fence_body, parse_ai_content, parsed_spec, strip_code_fence, ParsedAi};
use crate::sms::{prefix_of, Purpose};
use crate::text::{char_count, string_from, trim, trim_spec};

verus! {

// ---------------------------------------------------------------- codes the server makes

/// The bytes of an optional byte vector.
pub open spec fn bytes_opt(o: Option<Vec<u8>>) -> Option<Seq<u8>> {
    match o {
        Some(v) => Some(v@),
        None => None,
    }
}

/// What is stored for a code the log sender made itself: its HMAC under `pepper`, so that the
/// code is never kept in clear; nothing when the SMS provider made the code.
pub open spec fn code_digest(pepper: Seq<u8>, code: Option<String>) -> Option<Seq<u8>> {
    match code {
        Some(c) => Some(hmac_sha256_tag(pepper, vstd::utf8::encode_utf8(c@))),
        None => None,
    }
}

fn digest_of(pepper: &[u8], code: Option<String>) -> (d: Option<Vec<u8>>)
    ensures
        bytes_opt(d) == code_digest(pepper@, code),
{
    match code {
        Some(c) => Some(hmac_sha256(pepper, c.as_str().as_bytes())),
        None => None,
    }
}

// ---------------------------------------------------------------- sign-up, first step

/// Where a sign-up request stands.
pub enum RegisterBeginState {
    /// Nothing received yet.
    Start,
    /// The input passed its checks; waiting to learn whether the phone is registered.
    Checked { phone: String, username: String, password: String, ip: String },
    /// The quota allowed a code; waiting for the password hash.
    Hashing { phone: String, username: String, known: bool },
    /// A new phone: waiting for the code to go out.
    Sending { phone: String, username: String, hash: Vec<u8>, salt: Vec<u8> },
    /// The request has been answered.
    Done,
}

/// What the caller reports back.
pub enum RegisterBeginEvent {
    /// The request as received, with the client's IP.
    Request { phone: String, username: String, password: String, ip: String },
    /// Whether the phone belongs to a registered user.
    Looked { known: bool },
    /// The password hash and the salt it was made with.
    Hashed { hash: Vec<u8>, salt: Vec<u8> },
    /// No hashing slot was free.
    HashFailed { message: String },
    /// The code went out; with the log sender, the code it made.
    CodeSent { local_code: Option<String> },
    /// The SMS could not be sent.
    SendFailed { message: String },
}

/// What the caller is asked to do next.
pub enum RegisterBeginAction {
    /// Answer with this status and message; the request is over.
    Refuse { status: u16, message: String },
    /// Find out whether a user has this phone.
    LookUp { phone: String },
    /// Hash the password with a fresh salt and this many iterations.
    Hash { password: String, iterations: u32 },
    /// Answer that a code was sent to this phone; the request is over.
    Respond { phone: String },
    /// Send a sign-up code to this phone.
    SendCode { phone: String },
    /// Store this pending verification under this key, then answer that a code was sent.
    StorePending { key: String, pending: PendingVerification },
}

/// The message of a step that does not fit the state it was given.
pub open spec fn out_of_order_message() -> Seq<char> {
    "请求处理出错，请重新开始。"@
}

/// The step ends the request with this refusal.
pub open spec fn refused(r: (RegisterBeginState, RegisterBeginAction), status: u16, msg: Seq<char>) -> bool {
    &&& r.0 is Done
    &&& r.1 matches RegisterBeginAction::Refuse { status: s, message: m }
    &&& s == status
    &&& m@ == msg
}

/// The events that each state waits for.
pub open spec fn in_order(st: RegisterBeginState, ev: RegisterBeginEvent) -> bool {
    ||| st is Start && ev is Request
    ||| st is Checked && ev is Looked
    ||| st is Hashing && (ev is Hashed || ev is HashFailed)
    ||| st is Sending && (ev is CodeSent || ev is SendFailed)
}

fn refuse(status: u16, message: String) -> (r: (RegisterBeginState, RegisterBeginAction))
    ensures
        refused(r, status, message@),
{
    (RegisterBeginState::Done, RegisterBeginAction::Refuse { status, message })
}

/// One step of sign-up at time `now`, with the per-phone interval and the daily cap of the
/// SMS quota. The limiter changes only when the quota is checked, and then as
/// `sms_quota_outcome` says.
pub fn register_begin_step(
    st: RegisterBeginState,
    ev: RegisterBeginEvent,
    rl: &mut RateLimiter,
    pepper: &[u8],
    now: u64,
    interval: u64,
    cap: usize,
) -> (r: (RegisterBeginState, RegisterBeginAction))
    requires
        old(rl).wf(),
        now + PENDING_TTL_SECS <= u64::MAX,
    ensures
        final(rl).wf(),
        !(st is Checked && ev is Looked) ==> final(rl)@ == old(rl)@,
        !in_order(st, ev) ==> refused(r, 500, out_of_order_message()),
        // The request: phone, then user name (trimmed), then password; a pass asks for the look-up.
        st is Start ==> (ev matches RegisterBeginEvent::Request { phone, username, password, ip } ==> {
            let name = trim_spec(username@);
            match normalize_phone_spec(phone@) {
                None => refused(r, 400, "手机号格式不正确。"@),
                Some(p) => match username_error(name) {
                    Some(e) => refused(r, 400, e),
                    None => match password_error(password@, name, p) {
                        Some(e) => refused(r, 400, e),
                        None => {
                            &&& r.0 matches RegisterBeginState::Checked { phone: q, username: u, password: w, ip: i }
                            &&& q@ == p && u@ == name && w == password && i == ip
                            &&& r.1 matches RegisterBeginAction::LookUp { phone: l }
                            &&& l@ == p
                        },
                    },
                },
            }
        }),
        // The quota, before any hashing; the hash is asked for, known phone or not.
        st matches RegisterBeginState::Checked { phone, username, password, ip } ==> (
        ev matches RegisterBeginEvent::Looked { known } ==> {
            let (m, res) = sms_quota_outcome(old(rl)@, phone@, ip@, known, interval, cap, now);
            &&& final(rl)@ == m
            &&& res is Err ==> refused(r, 429, res->Err_0)
            &&& res is Ok ==> {
                &&& r.0 matches RegisterBeginState::Hashing { phone: q, username: u, known: k }
                &&& q == phone && u == username && k == known
                &&& r.1 matches RegisterBeginAction::Hash { password: w, iterations: n }
                &&& w == password && n == PBKDF2_ITERATIONS
            }
        }),
        // After the hash: a registered phone gets the answer at once, with no code and nothing
        // stored; a new one gets a code.
        st matches RegisterBeginState::Hashing { phone, username, known } ==> (
        ev matches RegisterBeginEvent::Hashed { hash, salt } ==> if known {
            &&& r.0 is Done
            &&& r.1 matches RegisterBeginAction::Respond { phone: q }
            &&& q == phone
        } else {
            &&& r.0 matches RegisterBeginState::Sending { phone: q, username: u, hash: h, salt: s }
            &&& q == phone && u == username && h == hash && s == salt
            &&& r.1 matches RegisterBeginAction::SendCode { phone: c }
            &&& c@ == phone@
        }),
        st is Hashing ==> (ev matches RegisterBeginEvent::HashFailed { message } ==> refused(r, 503, message@)),
        // The code went out: the pending sign-up to store.
        st matches RegisterBeginState::Sending { phone, username, hash, salt } ==> (
        ev matches RegisterBeginEvent::CodeSent { local_code } ==> {
            &&& r.0 is Done
            &&& r.1 matches RegisterBeginAction::StorePending { key, pending }
            &&& key@ == pending_key_spec(Purpose::Register, phone@)
            &&& pending.kind@ == prefix_of(Purpose::Register)
            &&& pending.phone@ == phone@
            &&& pending.created_at == now
            &&& pending.expires_at == now + PENDING_TTL_SECS
            &&& pending.attempts == 0
            &&& pending.username == Some(username)
            &&& pending.username_key matches Some(k) && k@ == username_key_spec(username@)
            &&& pending.password_hash == Some(hash)
            &&& pending.password_salt == Some(salt)
            &&& pending.pbkdf2_iterations == Some(PBKDF2_ITERATIONS)
            &&& bytes_opt(pending.local_code_hmac) == code_digest(pepper@, local_code)
        }),
        st is Sending ==> (ev matches RegisterBeginEvent::SendFailed { message } ==> refused(r, 400, message@)),
{
    match st {
        RegisterBeginState::Start => match ev {
            RegisterBeginEvent::Request { phone, username, password, ip } => {
                let name = trim(username.as_str());
                let p = match normalize_phone(phone.as_str()) {
                    None => return refuse(400, string_from("手机号格式不正确。")),
                    Some(p) => p,
                };
                match validate_username(name.as_str()) {
                    Err(e) => return refuse(400, e),
                    Ok(()) => {},
                }
                match validate_password(password.as_str(), name.as_str(), p.as_str()) {
                    Err(e) => return refuse(400, e),
                    Ok(()) => {},
                }
                let l = p.clone();
                (
                    RegisterBeginState::Checked { phone: p, username: name, password, ip },
                    RegisterBeginAction::LookUp { phone: l },
                )
            },
            _ => refuse(500, string_from("请求处理出错，请重新开始。")),
        },
        RegisterBeginState::Checked { phone, username, password, ip } => match ev {
            RegisterBeginEvent::Looked { known } => {
                match check_sms_quota_at(rl, phone.as_str(), ip.as_str(), known, interval, cap, now) {
                    Err(e) => refuse(429, e),
                    Ok(()) => (
                        RegisterBeginState::Hashing { phone, username, known },
                        RegisterBeginAction::Hash { password, iterations: PBKDF2_ITERATIONS },
                    ),
                }
            },
            _ => refuse(500, string_from("请求处理出错，请重新开始。")),
        },
        RegisterBeginState::Hashing { phone, username, known } => match ev {
            RegisterBeginEvent::Hashed { hash, salt } => {
                if known {
                    (RegisterBeginState::Done, RegisterBeginAction::Respond { phone })
                } else {
                    let c = phone.clone();
                    (
                        RegisterBeginState::Sending { phone, username, hash, salt },
                        RegisterBeginAction::SendCode { phone: c },
                    )
                }
            },
            RegisterBeginEvent::HashFailed { message } => refuse(503, message),
            _ => refuse(500, string_from("请求处理出错，请重新开始。")),
        },
        RegisterBeginState::Sending { phone, username, hash, salt } => match ev {
            RegisterBeginEvent::CodeSent { local_code } => {
                let local_code_hmac = digest_of(pepper, local_code);
                let key = pending_key(Purpose::Register, phone.as_str());
                let username_key = normalize_username_key(username.as_str());
                let pending = PendingVerification {
                    kind: string_from(Purpose::Register.key_prefix()),
                    phone,
                    created_at: now,
                    expires_at: now + PENDING_TTL_SECS,
                    attempts: 0,
                    username: Some(username),
                    username_key: Some(username_key),
                    password_hash: Some(hash),
                    password_salt: Some(salt),
                    pbkdf2_iterations: Some(PBKDF2_ITERATIONS),
                    local_code_hmac,
                };
                (RegisterBeginState::Done, RegisterBeginAction::StorePending { key, pending })
            },
            RegisterBeginEvent::SendFailed { message } => refuse(400, message),
            _ => refuse(500, string_from("请求处理出错，请重新开始。")),
        },
        RegisterBeginState::Done => refuse(500, string_from("请求处理出错，请重新开始。")),
    }
}

// ---------------------------------------------------------------- log-in

/// Where a log-in request stands.
pub enum LoginState {
    /// Nothing received yet.
    Start,
    /// Not locked out; waiting for the account's user, if there is one.
    LookingUp { password: String, account_limit_key: String, ip_limit_key: String },
    /// Waiting for the password check against this user.
    Verifying { user_id: String, account_limit_key: String, ip_limit_key: String },
    /// The request has been answered.
    Done,
}

/// What the caller reports back.
pub enum LoginEvent {
    /// The request as received, with the client's IP.
    Request { account: String, password: String, ip: String },
    /// The user the account name refers to, if any.
    Found { user: Option<User> },
    /// Whether the password matched.
    Verified { ok: bool },
    /// No hashing slot was free.
    VerifyFailed { message: String },
}

/// What the caller is asked to do next.
pub enum LoginAction {
    /// Answer with this status and message; the request is over.
    Refuse { status: u16, message: String },
    /// Find the user that this account name (user name or phone) refers to.
    LookUp { account: String },
    /// Run a password hash of the usual cost on a stand-in, then answer with this status
    /// and message, so that an unknown account takes as long as a wrong password.
    DecoyThenRefuse { status: u16, message: String },
    /// Check the password against the stored hash.
    Verify { password: String, salt: Vec<u8>, iterations: u32, expected: Vec<u8> },
    /// Record the log-in of this user and open a session.
    Succeed { user_id: String },
}

/// The answer to a wrong password, and to an account that does not exist.
pub open spec fn bad_credentials_message() -> Seq<char> {
    "用户名或密码不对。"@
}

/// The answer to a locked-out log-in, whether or not the account exists.
pub open spec fn locked_out_message() -> Seq<char> {
    "登录失败次数过多，请 15 分钟后再试。"@
}

/// The step ends the request with this refusal.
pub open spec fn login_refused(r: (LoginState, LoginAction), status: u16, msg: Seq<char>) -> bool {
    &&& r.0 is Done
    &&& r.1 matches LoginAction::Refuse { status: s, message: m }
    &&& s == status
    &&& m@ == msg
}

/// The events that each state waits for.
pub open spec fn login_in_order(st: LoginState, ev: LoginEvent) -> bool {
    ||| st is Start && ev is Request
    ||| st is LookingUp && ev is Found
    ||| st is Verifying && (ev is Verified || ev is VerifyFailed)
}

fn login_refuse(status: u16, message: String) -> (r: (LoginState, LoginAction))
    ensures
        login_refused(r, status, message@),
{
    (LoginState::Done, LoginAction::Refuse { status, message })
}

/// One step of log-in at time `now`. The lockout is decided from the limiter alone, before
/// any look-up; the limiter changes only there and when a password matches (both hits are
/// then taken back).
pub fn login_step(st: LoginState, ev: LoginEvent, rl: &mut RateLimiter, now: u64) -> (r: (LoginState, LoginAction))
    requires
        old(rl).wf(),
    ensures
        final(rl).wf(),
        !(st is Start && ev is Request) && !(st is Verifying && ev is Verified) ==> final(rl)@ == old(rl)@,
        !login_in_order(st, ev) ==> login_refused(r, 500, out_of_order_message()),
        // The lockout: per account key first, then per IP.
        st is Start ==> (ev matches LoginEvent::Request { account, password, ip } ==> {
            let name = trim_spec(account@);
            let ak = quota_key("login:acct:"@, username_key_spec(name));
            let ik = quota_key("login:ip:"@, ip@);
            let a = check_outcome(old(rl)@, ak, LOGIN_ACCOUNT_LIMIT, LOGIN_WINDOW_SECS, now);
            let b = check_outcome(a.0, ik, LOGIN_IP_LIMIT, LOGIN_WINDOW_SECS, now);
            &&& final(rl)@ == (if a.1 is Err { a.0 } else { b.0 })
            &&& (a.1 is Err || b.1 is Err) ==> login_refused(r, 429, locked_out_message())
            &&& !(a.1 is Err || b.1 is Err) ==> {
                &&& r.0 matches LoginState::LookingUp { password: w, account_limit_key: k1, ip_limit_key: k2 }
                &&& w == password && k1@ == ak && k2@ == ik
                &&& r.1 matches LoginAction::LookUp { account: l }
                &&& l@ == name
            }
        }),
        // No such account: a decoy hash, then the wrong-password answer.
        st matches LoginState::LookingUp { password, account_limit_key, ip_limit_key } ==> (
        ev matches LoginEvent::Found { user } ==> match user {
            None => {
                &&& r.0 is Done
                &&& r.1 matches LoginAction::DecoyThenRefuse { status: s, message: m }
                &&& s == 401 && m@ == bad_credentials_message()
            },
            Some(u) => {
                &&& r.0 matches LoginState::Verifying { user_id: id, account_limit_key: k1, ip_limit_key: k2 }
                &&& id == u.id && k1 == account_limit_key && k2 == ip_limit_key
                &&& r.1 matches LoginAction::Verify { password: w, salt, iterations, expected }
                &&& w == password && salt == u.password_salt && iterations == u.pbkdf2_iterations
                &&& expected == u.password_hash
            },
        }),
        // The password check: a match takes back both hits of this attempt.
        st matches LoginState::Verifying { user_id, account_limit_key, ip_limit_key } ==> (
        ev matches LoginEvent::Verified { ok } ==> if ok {
            &&& final(rl)@ == refund_outcome(refund_outcome(old(rl)@, account_limit_key@), ip_limit_key@)
            &&& r.0 is Done
            &&& r.1 matches LoginAction::Succeed { user_id: id }
            &&& id == user_id
        } else {
            &&& final(rl)@ == old(rl)@
            &&& login_refused(r, 401, bad_credentials_message())
        }),
        st is Verifying ==> (ev matches LoginEvent::VerifyFailed { message } ==> login_refused(r, 503, message@)),
{
    match st {
        LoginState::Start => match ev {
            LoginEvent::Request { account, password, ip } => {
                let name = trim(account.as_str());
                let key = normalize_username_key(name.as_str());
                let (locked, ak, ik) = login_locked_at(rl, key.as_str(), ip.as_str(), now);
                if locked {
                    return login_refuse(429, string_from("登录失败次数过多，请 15 分钟后再试。"));
                }
                (
                    LoginState::LookingUp { password, account_limit_key: ak, ip_limit_key: ik },
                    LoginAction::LookUp { account: name },
                )
            },
            _ => login_refuse(500, string_from("请求处理出错，请重新开始。")),
        },
        LoginState::LookingUp { password, account_limit_key, ip_limit_key } => match ev {
            LoginEvent::Found { user } => match user {
                None => (
                    LoginState::Done,
                    LoginAction::DecoyThenRefuse { status: 401, message: string_from("用户名或密码不对。") },
                ),
                Some(u) => (
                    LoginState::Verifying { user_id: u.id, account_limit_key, ip_limit_key },
                    LoginAction::Verify {
                        password,
                        salt: u.password_salt,
                        iterations: u.pbkdf2_iterations,
                        expected: u.password_hash,
                    },
                ),
            },
            _ => login_refuse(500, string_from("请求处理出错，请重新开始。")),
        },
        LoginState::Verifying { user_id, account_limit_key, ip_limit_key } => match ev {
            LoginEvent::Verified { ok } => {
                if ok {
                    rl.refund(account_limit_key.as_str());
                    rl.refund(ip_limit_key.as_str());
                    (LoginState::Done, LoginAction::Succeed { user_id })
                } else {
                    login_refuse(401, string_from("用户名或密码不对。"))
                }
            },
            LoginEvent::VerifyFailed { message } => login_refuse(503, message),
            _ => login_refuse(500, string_from("请求处理出错，请重新开始。")),
        },
        LoginState::Done => login_refuse(500, string_from("请求处理出错，请重新开始。")),
    }
}

// ---------------------------------------------------------------- password reset, first step

/// Where a password-reset request stands.
pub enum ResetBeginState {
    /// Nothing received yet.
    Start,
    /// The phone is well formed; waiting to learn whether it is registered.
    LookingUp { phone: String, ip: String },
    /// A registered phone: waiting for the code to go out.
    Sending { phone: String },
    /// The request has been answered.
    Done,
}

/// What the caller reports back.
pub enum ResetBeginEvent {
    /// The request as received, with the client's IP.
    Request { phone: String, ip: String },
    /// Whether the phone belongs to a registered user.
    Looked { known: bool },
    /// The code went out; with the log sender, the code it made.
    CodeSent { local_code: Option<String> },
    /// The SMS could not be sent.
    SendFailed { message: String },
}

/// What the caller is asked to do next. Every answer but the first refusal waits for the
/// request's fixed deadline, so that a registered phone and an unknown one take as long.
pub enum ResetBeginAction {
    /// Answer with this status and message at once; the request is over.
    Refuse { status: u16, message: String },
    /// Find out whether a user has this phone.
    LookUp { phone: String },
    /// Send a reset code to this phone.
    SendCode { phone: String },
    /// At the deadline, answer that a code was sent to this phone; the request is over.
    RespondAtDeadline { phone: String },
    /// At the deadline, answer with this status and message; the request is over.
    RefuseAtDeadline { status: u16, message: String },
    /// Store this pending verification under this key; at the deadline, answer that a code
    /// was sent.
    StorePending { key: String, pending: PendingVerification },
}

/// The step ends the request with this refusal, given at once.
pub open spec fn reset_refused(r: (ResetBeginState, ResetBeginAction), status: u16, msg: Seq<char>) -> bool {
    &&& r.0 is Done
    &&& r.1 matches ResetBeginAction::Refuse { status: s, message: m }
    &&& s == status
    &&& m@ == msg
}

/// The step ends the request with this refusal, given at the deadline.
pub open spec fn reset_refused_at_deadline(r: (ResetBeginState, ResetBeginAction), status: u16, msg: Seq<char>) -> bool {
    &&& r.0 is Done
    &&& r.1 matches ResetBeginAction::RefuseAtDeadline { status: s, message: m }
    &&& s == status
    &&& m@ == msg
}

/// The events that each state waits for.
pub open spec fn reset_in_order(st: ResetBeginState, ev: ResetBeginEvent) -> bool {
    ||| st is Start && ev is Request
    ||| st is LookingUp && ev is Looked
    ||| st is Sending && (ev is CodeSent || ev is SendFailed)
}

fn reset_refuse(status: u16, message: String) -> (r: (ResetBeginState, ResetBeginAction))
    ensures
        reset_refused(r, status, message@),
{
    (ResetBeginState::Done, ResetBeginAction::Refuse { status, message })
}

/// One step of a password-reset request at time `now`, with the per-phone interval and the
/// daily cap of the SMS quota. A reset always counts as a known phone for the quota, so that
/// registered users can still reset when sign-ups have used up their share; an unknown phone
/// is answered as a known one, with no code sent and nothing stored.
pub fn reset_begin_step(
    st: ResetBeginState,
    ev: ResetBeginEvent,
    rl: &mut RateLimiter,
    pepper: &[u8],
    now: u64,
    interval: u64,
    cap: usize,
) -> (r: (ResetBeginState, ResetBeginAction))
    requires
        old(rl).wf(),
        now + PENDING_TTL_SECS <= u64::MAX,
    ensures
        final(rl).wf(),
        !(st is LookingUp && ev is Looked) ==> final(rl)@ == old(rl)@,
        !reset_in_order(st, ev) ==> reset_refused(r, 500, out_of_order_message()),
        st is Start ==> (ev matches ResetBeginEvent::Request { phone, ip } ==> match normalize_phone_spec(phone@) {
            None => reset_refused(r, 400, "手机号格式不正确。"@),
            Some(p) => {
                &&& r.0 matches ResetBeginState::LookingUp { phone: q, ip: i }
                &&& q@ == p && i == ip
                &&& r.1 matches ResetBeginAction::LookUp { phone: l }
                &&& l@ == p
            },
        }),
        st matches ResetBeginState::LookingUp { phone, ip } ==> (ev matches ResetBeginEvent::Looked { known } ==> {
            let (m, res) = sms_quota_outcome(old(rl)@, phone@, ip@, true, interval, cap, now);
            &&& final(rl)@ == m
            &&& res is Err ==> reset_refused_at_deadline(r, 429, res->Err_0)
            &&& (res is Ok && known) ==> {
                &&& r.0 matches ResetBeginState::Sending { phone: q }
                &&& q == phone
                &&& r.1 matches ResetBeginAction::SendCode { phone: c }
                &&& c@ == phone@
            }
            &&& (res is Ok && !known) ==> {
                &&& r.0 is Done
                &&& r.1 matches ResetBeginAction::RespondAtDeadline { phone: q }
                &&& q == phone
            }
        }),
        st matches ResetBeginState::Sending { phone } ==> (ev matches ResetBeginEvent::CodeSent { local_code } ==> {
            &&& r.0 is Done
            &&& r.1 matches ResetBeginAction::StorePending { key, pending }
            &&& key@ == pending_key_spec(Purpose::Reset, phone@)
            &&& pending.kind@ == prefix_of(Purpose::Reset)
            &&& pending.phone == phone
            &&& pending.created_at == now
            &&& pending.expires_at == now + PENDING_TTL_SECS
            &&& pending.attempts == 0
            &&& pending.username is None && pending.username_key is None
            &&& pending.password_hash is None && pending.password_salt is None
            &&& pending.pbkdf2_iterations is None
            &&& bytes_opt(pending.local_code_hmac) == code_digest(pepper@, local_code)
        }),
        st is Sending ==> (ev matches ResetBeginEvent::SendFailed { message } ==> reset_refused_at_deadline(
            r,
            400,
            message@,
        )),
{
    match st {
        ResetBeginState::Start => match ev {
            ResetBeginEvent::Request { phone, ip } => match normalize_phone(phone.as_str()) {
                None => reset_refuse(400, string_from("手机号格式不正确。")),
                Some(p) => {
                    let l = p.clone();
                    (ResetBeginState::LookingUp { phone: p, ip }, ResetBeginAction::LookUp { phone: l })
                },
            },
            _ => reset_refuse(500, string_from("请求处理出错，请重新开始。")),
        },
        ResetBeginState::LookingUp { phone, ip } => match ev {
            ResetBeginEvent::Looked { known } => {
                match check_sms_quota_at(rl, phone.as_str(), ip.as_str(), true, interval, cap, now) {
                    Err(e) => (ResetBeginState::Done, ResetBeginAction::RefuseAtDeadline { status: 429, message: e }),
                    Ok(()) => if known {
                        let c = phone.clone();
                        (ResetBeginState::Sending { phone }, ResetBeginAction::SendCode { phone: c })
                    } else {
                        (ResetBeginState::Done, ResetBeginAction::RespondAtDeadline { phone })
                    },
                }
            },
            _ => reset_refuse(500, string_from("请求处理出错，请重新开始。")),
        },
        ResetBeginState::Sending { phone } => match ev {
            ResetBeginEvent::CodeSent { local_code } => {
                let local_code_hmac = digest_of(pepper, local_code);
                let key = pending_key(Purpose::Reset, phone.as_str());
                let pending = PendingVerification {
                    kind: string_from(Purpose::Reset.key_prefix()),
                    phone,
                    created_at: now,
                    expires_at: now + PENDING_TTL_SECS,
                    attempts: 0,
                    username: None,
                    username_key: None,
                    password_hash: None,
                    password_salt: None,
                    pbkdf2_iterations: None,
                    local_code_hmac,
                };
                (ResetBeginState::Done, ResetBeginAction::StorePending { key, pending })
            },
            ResetBeginEvent::SendFailed { message } => (
                ResetBeginState::Done,
                ResetBeginAction::RefuseAtDeadline { status: 400, message },
            ),
            _ => reset_refuse(500, string_from("请求处理出错，请重新开始。")),
        },
        ResetBeginState::Done => reset_refuse(500, string_from("请求处理出错，请重新开始。")),
    }
}

// ---------------------------------------------------------------- checking a code

/// Where the check of a verification code stands.
pub enum CodeCheckState {
    /// Nothing received yet.
    Start,
    /// Waiting for the pending verification stored under `key`.
    Looking { key: String, phone: String, code: String },
    /// Waiting for the SMS provider to judge the code.
    Asking { key: String, pending: PendingVerification },
    /// The check is over.
    Done,
}

/// What the caller reports back.
pub enum CodeCheckEvent {
    /// A code typed for this purpose and (normalised) phone.
    Request { purpose: Purpose, phone: String, code: String },
    /// The pending verification, if there is one.
    Found { pending: Option<PendingVerification> },
    /// The provider's verdict on the code.
    Checked { ok: bool },
    /// The provider could not be asked.
    CheckFailed { message: String },
}

/// What the caller is asked to do next.
pub enum CodeCheckAction {
    /// Answer with this status and message; the check is over.
    Refuse { status: u16, message: String },
    /// Read the pending verification under this key.
    LookUp { key: String },
    /// Ask the SMS provider whether this code is the one it sent to this phone.
    AskProvider { phone: String, code: String },
    /// Count a wrong code against the pending verification under `key`, then answer with this
    /// status and message.
    NoteFailureThenRefuse { key: String, status: u16, message: String },
    /// The code is right: remove the pending verification under `key` and go on with it.
    Accept { key: String, pending: PendingVerification },
}

/// Whether a code as typed is the one whose HMAC under `pepper` was stored.
pub open spec fn code_matches(pepper: Seq<u8>, code: Seq<char>, expected: Seq<u8>) -> bool {
    hmac_sha256_tag(pepper, vstd::utf8::encode_utf8(digits_of(code))) == expected
}

/// The answer to a missing or expired pending verification.
pub open spec fn expired_message() -> Seq<char> {
    "验证码已过期，请重新获取。"@
}

/// The answer to a wrong code.
pub open spec fn wrong_code_message() -> Seq<char> {
    "验证码不对，请检查后重新输入。"@
}

/// The step ends the check with this refusal.
pub open spec fn check_refused(r: (CodeCheckState, CodeCheckAction), status: u16, msg: Seq<char>) -> bool {
    &&& r.0 is Done
    &&& r.1 matches CodeCheckAction::Refuse { status: s, message: m }
    &&& s == status
    &&& m@ == msg
}

/// The step counts a wrong code under `key` and refuses.
pub open spec fn check_noted(r: (CodeCheckState, CodeCheckAction), key: String) -> bool {
    &&& r.0 is Done
    &&& r.1 matches CodeCheckAction::NoteFailureThenRefuse { key: k, status: s, message: m }
    &&& k == key && s == 400 && m@ == wrong_code_message()
}

/// The step accepts the code of `pending`, stored under `key`.
pub open spec fn check_accepted(r: (CodeCheckState, CodeCheckAction), key: String, pending: PendingVerification) -> bool {
    &&& r.0 is Done
    &&& r.1 matches CodeCheckAction::Accept { key: k, pending: q }
    &&& k == key && q == pending
}

/// The events that each state waits for.
pub open spec fn check_in_order(st: CodeCheckState, ev: CodeCheckEvent) -> bool {
    ||| st is Start && ev is Request
    ||| st is Looking && ev is Found
    ||| st is Asking && (ev is Checked || ev is CheckFailed)
}

fn check_refuse(status: u16, message: String) -> (r: (CodeCheckState, CodeCheckAction))
    ensures
        check_refused(r, status, message@),
{
    (CodeCheckState::Done, CodeCheckAction::Refuse { status, message })
}

/// One step of checking a code at time `now`. A missing or expired pending verification gets
/// the same answer; one with no attempts left is refused before the code is looked at; a code
/// the server made itself is checked against its HMAC under `pepper`, any other by the provider.
pub fn code_check_step(st: CodeCheckState, ev: CodeCheckEvent, pepper: &[u8], now: u64) -> (r: (
    CodeCheckState,
    CodeCheckAction,
))
    ensures
        !check_in_order(st, ev) ==> check_refused(r, 500, out_of_order_message()),
        st is Start ==> (ev matches CodeCheckEvent::Request { purpose, phone, code } ==> {
            &&& r.0 matches CodeCheckState::Looking { key: k, phone: q, code: c }
            &&& k@ == pending_key_spec(purpose, phone@) && q == phone && c == code
            &&& r.1 matches CodeCheckAction::LookUp { key: l }
            &&& l@ == pending_key_spec(purpose, phone@)
        }),
        st matches CodeCheckState::Looking { key, phone, code } ==> (ev matches CodeCheckEvent::Found { pending } ==> match pending {
            None => check_refused(r, 400, expired_message()),
            Some(p) => if p.expires_at <= now {
                check_refused(r, 400, expired_message())
            } else if p.attempts >= MAX_VERIFY_ATTEMPTS {
                check_refused(r, 429, "验证码错误次数过多，请重新获取。"@)
            } else {
                match p.local_code_hmac {
                    Some(e) => if code_matches(pepper@, code@, e@) {
                        check_accepted(r, key, p)
                    } else {
                        check_noted(r, key)
                    },
                    None => {
                        &&& r.0 matches CodeCheckState::Asking { key: k, pending: q }
                        &&& k == key && q == p
                        &&& r.1 matches CodeCheckAction::AskProvider { phone: f, code: c }
                        &&& f == phone && c@ == digits_of(code@)
                    },
                }
            },
        }),
        st matches CodeCheckState::Asking { key, pending } ==> (ev matches CodeCheckEvent::Checked { ok } ==> if ok {
            check_accepted(r, key, pending)
        } else {
            check_noted(r, key)
        }),
        st is Asking ==> (ev matches CodeCheckEvent::CheckFailed { message } ==> check_refused(r, 400, message@)),
{
    match st {
        CodeCheckState::Start => match ev {
            CodeCheckEvent::Request { purpose, phone, code } => {
                let key = pending_key(purpose, phone.as_str());
                let l = pending_key(purpose, phone.as_str());
                (CodeCheckState::Looking { key, phone, code }, CodeCheckAction::LookUp { key: l })
            },
            _ => check_refuse(500, string_from("请求处理出错，请重新开始。")),
        },
        CodeCheckState::Looking { key, phone, code } => match ev {
            CodeCheckEvent::Found { pending } => match pending {
                None => check_refuse(400, string_from("验证码已过期，请重新获取。")),
                Some(p) => {
                    match pending_gate(Some(&p), now) {
                        Err((status, message)) => return check_refuse(status, message),
                        Ok(()) => {},
                    }
                    let normalized = normalize_code(code.as_str());
                    let local = match &p.local_code_hmac {
                        Some(e) => Some(local_code_matches(pepper, normalized.as_str(), e.as_slice())),
                        None => None,
                    };
                    match local {
                        Some(true) => (CodeCheckState::Done, CodeCheckAction::Accept { key, pending: p }),
                        Some(false) => (
                            CodeCheckState::Done,
                            CodeCheckAction::NoteFailureThenRefuse {
                                key,
                                status: 400,
                                message: string_from("验证码不对，请检查后重新输入。"),
                            },
                        ),
                        None => (
                            CodeCheckState::Asking { key, pending: p },
                            CodeCheckAction::AskProvider { phone, code: normalized },
                        ),
                    }
                },
            },
            _ => check_refuse(500, string_from("请求处理出错，请重新开始。")),
        },
        CodeCheckState::Asking { key, pending } => match ev {
            CodeCheckEvent::Checked { ok } => if ok {
                (CodeCheckState::Done, CodeCheckAction::Accept { key, pending })
            } else {
                (
                    CodeCheckState::Done,
                    CodeCheckAction::NoteFailureThenRefuse {
                        key,
                        status: 400,
                        message: string_from("验证码不对，请检查后重新输入。"),
                    },
                )
            },
            CodeCheckEvent::CheckFailed { message } => check_refuse(400, message),
            _ => check_refuse(500, string_from("请求处理出错，请重新开始。")),
        },
        CodeCheckState::Done => check_refuse(500, string_from("请求处理出错，请重新开始。")),
    }
}

// ---------------------------------------------------------------- AI generation

/// Where an AI generation request stands.
pub enum AiGenerateState {
    /// Nothing received yet.
    Start,
    /// Waiting for the model's reply.
    Calling { model: String, balance: i64 },
    /// Waiting for the call to be charged.
    Charging { content: String, usage: Option<AiUsage> },
    /// Waiting for the reply, fence stripped, to be read as JSON.
    Parsing { text: String, content: String, usage: Option<AiUsage>, balance: i64 },
    /// The request has been answered.
    Done,
}

/// What the caller reports back.
pub enum AiGenerateEvent {
    /// The request: the user's balance, the model asked for, and the server's default model.
    Request { balance: i64, model: Option<String>, default_model: String },
    /// The model's reply and the token usage it reported.
    Replied { content: String, usage: Option<AiUsage> },
    /// The model could not be reached or gave no usable answer.
    UpstreamFailed { message: String },
    /// The call was charged; the balance after it.
    Charged { balance: i64 },
    /// The reply as JSON, none when it is not JSON.
    Read { doc: Option<JsonValue> },
}

/// What the caller is asked to do next.
pub enum AiGenerateAction {
    /// Answer with this status and message; the request is over.
    Refuse { status: u16, message: String },
    /// Answer with a failure; the request is over.
    Fail { message: String, balance: i64, usage: Option<AiUsage>, raw_content: Option<String> },
    /// Call this model.
    CallUpstream { model: String },
    /// Take these coins from the user's balance.
    Charge { coins: i64 },
    /// Read this text as JSON.
    ReadJson { text: String },
    /// Answer with the commands to run once, those to run every tick, and the failures.
    Succeed {
        commands: Vec<String>,
        loop_commands: Vec<String>,
        failures: Vec<String>,
        explanation: String,
        usage: Option<AiUsage>,
        raw_content: String,
        balance: i64,
    },
}

/// The model used: the one asked for, trimmed, unless that is empty; else the default.
pub open spec fn model_choice(asked: Option<String>, default_model: Seq<char>) -> Seq<char> {
    match asked {
        Some(m) => if trim_spec(m@).len() > 0 {
            trim_spec(m@)
        } else {
            default_model
        },
        None => default_model,
    }
}

/// The views of an optional JSON value.
pub open spec fn doc_view(doc: Option<JsonValue>) -> Option<JsonView> {
    match doc {
        Some(d) => Some(d@),
        None => None,
    }
}

/// The events that each state waits for.
pub open spec fn ai_in_order(st: AiGenerateState, ev: AiGenerateEvent) -> bool {
    ||| st is Start && ev is Request
    ||| st is Calling && (ev is Replied || ev is UpstreamFailed)
    ||| st is Charging && ev is Charged
    ||| st is Parsing && ev is Read
}

/// The step ends the request with this failure.
pub open spec fn ai_failed(
    r: (AiGenerateState, AiGenerateAction),
    msg: Seq<char>,
    balance: i64,
    usage: Option<AiUsage>,
    raw: Option<String>,
) -> bool {
    &&& r.0 is Done
    &&& r.1 matches AiGenerateAction::Fail { message: m, balance: b, usage: u, raw_content: c }
    &&& m@ == msg && b == balance && u == usage && c == raw
}

/// The step answers with the commands of `parsed`, dispatched for `version` and sorted, the
/// modifier-id counter running from `start` to `end` over the batch.
pub open spec fn ai_succeeded(
    r: (AiGenerateState, AiGenerateAction),
    parsed: ParsedAi,
    version: GiveVersion,
    cats: GiveCatalogs,
    usage: Option<AiUsage>,
    content: String,
    balance: i64,
    start: u64,
    end: u64,
) -> bool {
    &&& r.0 is Done
    &&& r.1 matches AiGenerateAction::Succeed {
        commands,
        loop_commands,
        failures,
        explanation,
        usage: u,
        raw_content: c,
        balance: b,
    }
    &&& explanation == parsed.explanation && u == usage && c == content && b == balance
    &&& exists|out: Seq<DispatchResult>|
        {
            &&& out.len() == parsed.intents@.len()
            &&& forall|i: int| 0 <= i < out.len() ==> dispatched(#[trigger] out[i], parsed.intents@[i], version, cats)
            &&& (texts(commands@), texts(loop_commands@), texts(failures@)) == #[trigger] split_spec(out)
            &&& exists|marks: Seq<u64>|
                #[trigger] counter_chain(out, parsed.intents@, version, cats, marks) && marks[0] == start
                    && marks[out.len() as int] == end
        }
}

/// The step refuses an event that does not fit the state.
pub open spec fn ai_refused(r: (AiGenerateState, AiGenerateAction)) -> bool {
    &&& r.0 is Done
    &&& r.1 matches AiGenerateAction::Refuse { status, message }
    &&& status == 500 && message@ == out_of_order_message()
}

fn ai_refuse() -> (r: (AiGenerateState, AiGenerateAction))
    ensures
        ai_refused(r),
{
    (AiGenerateState::Done, AiGenerateAction::Refuse { status: 500, message: string_from("请求处理出错，请重新开始。") })
}

/// One step of an AI generation request, for the client's `version` and the loaded catalogs,
/// with the process's modifier-id counter (see `build_give_command`).
/// A user without coins is turned away before the model is called; once the model has
/// replied, the call is charged whether or not the reply can be used.
pub fn ai_generate_step(
    st: AiGenerateState,
    ev: AiGenerateEvent,
    version: GiveVersion,
    cats: &GiveCatalogs,
    id_counter: &mut u64,
) -> (r: (AiGenerateState, AiGenerateAction))
    ensures
        !(st is Parsing && ev is Read) ==> *final(id_counter) == *old(id_counter),
        !ai_in_order(st, ev) ==> ai_refused(r),
        st is Start ==> (ev matches AiGenerateEvent::Request { balance, model, default_model } ==> if balance <= 0 {
            ai_failed(r, "余额不足，请先激活 / 充值。"@, balance, None, None)
        } else {
            &&& r.0 matches AiGenerateState::Calling { model: m, balance: b }
            &&& m@ == model_choice(model, default_model@) && b == balance
            &&& r.1 matches AiGenerateAction::CallUpstream { model: c }
            &&& c@ == model_choice(model, default_model@)
        }),
        st matches AiGenerateState::Calling { model, balance } ==> (
        ev matches AiGenerateEvent::UpstreamFailed { message } ==> ai_failed(r, message@, balance, None, None)),
        st matches AiGenerateState::Calling { model, balance } ==> (ev matches AiGenerateEvent::Replied { content, usage } ==> {
            &&& r.0 matches AiGenerateState::Charging { content: c, usage: u }
            &&& c == content && u == usage
            &&& r.1 matches AiGenerateAction::Charge { coins }
            &&& coins == coins_spec(model@, usage)
        }),
        st matches AiGenerateState::Charging { content, usage } ==> (ev matches AiGenerateEvent::Charged { balance } ==> {
            &&& r.0 matches AiGenerateState::Parsing { text: t, content: c, usage: u, balance: b }
            &&& t@ == fence_body(content@) && c == content && u == usage && b == balance
            &&& r.1 matches AiGenerateAction::ReadJson { text: t2 }
            &&& t2@ == fence_body(content@)
        }),
        st matches AiGenerateState::Parsing { text, content, usage, balance } ==> (ev matches AiGenerateEvent::Read { doc } ==> 
            exists|p: Result<ParsedAi, String>|
                #[trigger] parsed_spec(p, text@, doc_view(doc)) && match p {
                    Err(e) => ai_failed(r, e@, balance, usage, Some(content)) && *final(id_counter) == *old(id_counter),
                    Ok(pa) => ai_succeeded(
                        r,
                        pa,
                        version,
                        *cats,
                        usage,
                        content,
                        balance,
                        *old(id_counter),
                        *final(id_counter),
                    ),
                }),
{
    match st {
        AiGenerateState::Start => match ev {
            AiGenerateEvent::Request { balance, model, default_model } => {
                if balance <= 0 {
                    return (
                        AiGenerateState::Done,
                        AiGenerateAction::Fail {
                            message: string_from("余额不足，请先激活 / 充值。"),
                            balance,
                            usage: None,
                            raw_content: None,
                        },
                    );
                }
                let chosen = match &model {
                    Some(m) => {
                        let t = trim(m.as_str());
                        if char_count(t.as_str()) > 0 {
                            t
                        } else {
                            default_model
                        }
                    },
                    None => default_model,
                };
                let c = chosen.clone();
                (AiGenerateState::Calling { model: chosen, balance }, AiGenerateAction::CallUpstream { model: c })
            },
            _ => ai_refuse(),
        },
        AiGenerateState::Calling { model, balance } => match ev {
            AiGenerateEvent::Replied { content, usage } => {
                let coins = match &usage {
                    Some(u) => coins_to_charge(model.as_str(), Some(u)),
                    None => coins_to_charge(model.as_str(), None),
                };
                (AiGenerateState::Charging { content, usage }, AiGenerateAction::Charge { coins })
            },
            AiGenerateEvent::UpstreamFailed { message } => (
                AiGenerateState::Done,
                AiGenerateAction::Fail { message, balance, usage: None, raw_content: None },
            ),
            _ => ai_refuse(),
        },
        AiGenerateState::Charging { content, usage } => match ev {
            AiGenerateEvent::Charged { balance } => {
                let text = strip_code_fence(content.as_str());
                let t2 = text.clone();
                (AiGenerateState::Parsing { text, content, usage, balance }, AiGenerateAction::ReadJson { text: t2 })
            },
            _ => ai_refuse(),
        },
        AiGenerateState::Parsing { text, content, usage, balance } => match ev {
            AiGenerateEvent::Read { doc } => {
                let parsed = parse_ai_content(text.as_str(), doc);
                let ghost pr = parsed;
                match parsed {
                    Err(e) => (
                        AiGenerateState::Done,
                        AiGenerateAction::Fail { message: e, balance, usage, raw_content: Some(content) },
                    ),
                    Ok(pa) => {
                        let ghost pa0 = pa;
                        let ghost c0 = *id_counter;
                        let results = dispatch_intents(pa.intents, version, cats, id_counter);
                        let (commands, loop_commands, failures) = split_results(&results);
                        let r = (
                            AiGenerateState::Done,
                            AiGenerateAction::Succeed {
                                commands,
                                loop_commands,
                                failures,
                                explanation: pa.explanation,
                                usage,
                                raw_content: content,
                                balance,
                            },
                        );
                        assert(ai_succeeded(r, pa0, version, *cats, usage, content, balance, c0, *id_counter));
                        assert(parsed_spec(pr, text@, doc_view(doc)));
                        r
                    },
                }
            },
            _ => ai_refuse(),
        },
        AiGenerateState::Done => ai_refuse(),
    }
}

// ---------------------------------------------------------------- sign-up, second step

/// Where the second step of sign-up stands.
pub enum RegisterVerifyState {
    /// Nothing received yet.
    Start,
    /// Waiting for the code to be checked.
    Checking { phone: String },
    /// The request has been answered.
    Done,
}

/// What the caller reports back.
pub enum RegisterVerifyEvent {
    /// The request as received.
    Request { phone: String, code: String },
    /// The code was right; the pending sign-up it unlocked (already removed).
    CodeAccepted { pending: PendingVerification },
    /// The code check refused the request with this status and message.
    CodeRefused { status: u16, message: String },
}

/// What the caller is asked to do next.
pub enum RegisterVerifyAction {
    /// Answer with this status and message; the request is over.
    Refuse { status: u16, message: String },
    /// Check and use up the code for this purpose and phone (see `code_check_step`).
    CheckCode { purpose: Purpose, phone: String, code: String },
    /// Store this user (refused if the name or phone was taken meanwhile) and open a session.
    FinishRegistration { user: User },
}

/// The step ends the request with this refusal.
pub open spec fn verify_refused(r: (RegisterVerifyState, RegisterVerifyAction), status: u16, msg: Seq<char>) -> bool {
    &&& r.0 is Done
    &&& r.1 matches RegisterVerifyAction::Refuse { status: s, message: m }
    &&& s == status
    &&& m@ == msg
}

/// The events that each state waits for.
pub open spec fn verify_in_order(st: RegisterVerifyState, ev: RegisterVerifyEvent) -> bool {
    ||| st is Start && ev is Request
    ||| st is Checking && (ev is CodeAccepted || ev is CodeRefused)
}

fn verify_refuse(status: u16, message: String) -> (r: (RegisterVerifyState, RegisterVerifyAction))
    ensures
        verify_refused(r, status, message@),
{
    (RegisterVerifyState::Done, RegisterVerifyAction::Refuse { status, message })
}

/// One step of the second step of sign-up at time `now`. Names and phones are checked for
/// uniqueness only when the user is stored; the new user gets a fresh random id.
pub fn register_verify_step(st: RegisterVerifyState, ev: RegisterVerifyEvent, now: u64) -> (r: (
    RegisterVerifyState,
    RegisterVerifyAction,
))
    ensures
        !verify_in_order(st, ev) ==> verify_refused(r, 500, out_of_order_message()),
        st is Start ==> (ev matches RegisterVerifyEvent::Request { phone, code } ==> match normalize_phone_spec(phone@) {
            None => verify_refused(r, 400, "手机号格式不正确。"@),
            Some(p) => {
                &&& r.0 matches RegisterVerifyState::Checking { phone: q }
                &&& q@ == p
                &&& r.1 matches RegisterVerifyAction::CheckCode { purpose, phone: c, code: k }
                &&& purpose == Purpose::Register && c@ == p && k == code
            },
        }),
        st matches RegisterVerifyState::Checking { phone } ==> (ev matches RegisterVerifyEvent::CodeAccepted { pending } ==> if (
        pending.username is Some && pending.username_key is Some && pending.password_hash is Some
            && pending.password_salt is Some && pending.pbkdf2_iterations is Some) {
            &&& r.0 is Done
            &&& r.1 matches RegisterVerifyAction::FinishRegistration { user }
            &&& exists|raw: Seq<u8>| raw.len() == TOKEN_BYTES && #[trigger] base64_url_nopad(raw) == user.id@
            &&& Some(user.username) == pending.username && Some(user.username_key) == pending.username_key
            &&& user.phone == phone
            &&& Some(user.password_hash) == pending.password_hash && Some(user.password_salt) == pending.password_salt
            &&& Some(user.pbkdf2_iterations) == pending.pbkdf2_iterations
            &&& user.created_at == now && user.last_login_at == now
        } else {
            verify_refused(r, 400, "注册信息已失效，请重新注册。"@)
        }),
        st is Checking ==> (ev matches RegisterVerifyEvent::CodeRefused { status, message } ==> verify_refused(
            r,
            status,
            message@,
        )),
{
    match st {
        RegisterVerifyState::Start => match ev {
            RegisterVerifyEvent::Request { phone, code } => match normalize_phone(phone.as_str()) {
                None => verify_refuse(400, string_from("手机号格式不正确。")),
                Some(p) => {
                    let c = p.clone();
                    (
                        RegisterVerifyState::Checking { phone: p },
                        RegisterVerifyAction::CheckCode { purpose: Purpose::Register, phone: c, code },
                    )
                },
            },
            _ => verify_refuse(500, string_from("请求处理出错，请重新开始。")),
        },
        RegisterVerifyState::Checking { phone } => match ev {
            RegisterVerifyEvent::CodeAccepted { pending } => match (
                pending.username,
                pending.username_key,
                pending.password_hash,
                pending.password_salt,
                pending.pbkdf2_iterations,
            ) {
                (Some(username), Some(username_key), Some(hash), Some(salt), Some(iterations)) => {
                    let user = User {
                        id: random_token(),
                        username,
                        username_key,
                        phone,
                        password_hash: hash,
                        password_salt: salt,
                        pbkdf2_iterations: iterations,
                        created_at: now,
                        last_login_at: now,
                    };
                    (RegisterVerifyState::Done, RegisterVerifyAction::FinishRegistration { user })
                },
                _ => verify_refuse(400, string_from("注册信息已失效，请重新注册。")),
            },
            RegisterVerifyEvent::CodeRefused { status, message } => verify_refuse(status, message),
            _ => verify_refuse(500, string_from("请求处理出错，请重新开始。")),
        },
        RegisterVerifyState::Done => verify_refuse(500, string_from("请求处理出错，请重新开始。")),
    }
}

// ---------------------------------------------------------------- password reset, second step

/// Where the second step of a password reset stands.
pub enum ResetConfirmState {
    /// Nothing received yet.
    Start,
    /// Waiting for the user with this phone, if any.
    LookingUp { phone: String, code: String, new_password: String },
    /// Waiting for the code to be checked.
    Checking { user_id: String, new_password: String },
    /// Waiting for the new password's hash.
    Hashing { user_id: String },
    /// The request has been answered.
    Done,
}

/// What the caller reports back.
pub enum ResetConfirmEvent {
    /// The request as received.
    Request { phone: String, code: String, new_password: String },
    /// The user with the phone, if any.
    Found { user: Option<User> },
    /// The code was right (the pending reset is already removed).
    CodeAccepted,
    /// The code check refused the request with this status and message.
    CodeRefused { status: u16, message: String },
    /// The new password's hash and the salt it was made with.
    Hashed { hash: Vec<u8>, salt: Vec<u8> },
    /// No hashing slot was free.
    HashFailed { message: String },
}

/// What the caller is asked to do next.
pub enum ResetConfirmAction {
    /// Answer with this status and message; the request is over.
    Refuse { status: u16, message: String },
    /// Find the user with this phone.
    LookUp { phone: String },
    /// Check and use up the code for this purpose and phone (see `code_check_step`).
    CheckCode { purpose: Purpose, phone: String, code: String },
    /// Hash the new password with a fresh salt and this many iterations.
    Hash { password: String, iterations: u32 },
    /// Store the new password of this user, end all of its sessions, and answer success.
    SetPassword { user_id: String, hash: Vec<u8>, salt: Vec<u8>, iterations: u32 },
}

/// The step ends the request with this refusal.
pub open spec fn confirm_refused(r: (ResetConfirmState, ResetConfirmAction), status: u16, msg: Seq<char>) -> bool {
    &&& r.0 is Done
    &&& r.1 matches ResetConfirmAction::Refuse { status: s, message: m }
    &&& s == status
    &&& m@ == msg
}

/// The events that each state waits for.
pub open spec fn confirm_in_order(st: ResetConfirmState, ev: ResetConfirmEvent) -> bool {
    ||| st is Start && ev is Request
    ||| st is LookingUp && ev is Found
    ||| st is Checking && (ev is CodeAccepted || ev is CodeRefused)
    ||| st is Hashing && (ev is Hashed || ev is HashFailed)
}

fn confirm_refuse(status: u16, message: String) -> (r: (ResetConfirmState, ResetConfirmAction))
    ensures
        confirm_refused(r, status, message@),
{
    (ResetConfirmState::Done, ResetConfirmAction::Refuse { status, message })
}

/// One step of the second step of a password reset. A phone with no user gets the answer of
/// an expired code; the new password is held to the policy before the code is used up.
pub fn reset_confirm_step(st: ResetConfirmState, ev: ResetConfirmEvent) -> (r: (ResetConfirmState, ResetConfirmAction))
    ensures
        !confirm_in_order(st, ev) ==> confirm_refused(r, 500, out_of_order_message()),
        st is Start ==> (ev matches ResetConfirmEvent::Request { phone, code, new_password } ==> match normalize_phone_spec(
            phone@,
        ) {
            None => confirm_refused(r, 400, "手机号格式不正确。"@),
            Some(p) => {
                &&& r.0 matches ResetConfirmState::LookingUp { phone: q, code: c, new_password: w }
                &&& q@ == p && c == code && w == new_password
                &&& r.1 matches ResetConfirmAction::LookUp { phone: l }
                &&& l@ == p
            },
        }),
        st matches ResetConfirmState::LookingUp { phone, code, new_password } ==> (
        ev matches ResetConfirmEvent::Found { user } ==> match user {
            None => confirm_refused(r, 400, expired_message()),
            Some(u) => match password_error(new_password@, u.username@, phone@) {
                Some(e) => confirm_refused(r, 400, e),
                None => {
                    &&& r.0 matches ResetConfirmState::Checking { user_id: id, new_password: w }
                    &&& id == u.id && w == new_password
                    &&& r.1 matches ResetConfirmAction::CheckCode { purpose, phone: f, code: c }
                    &&& purpose == Purpose::Reset && f == phone && c == code
                },
            },
        }),
        st matches ResetConfirmState::Checking { user_id, new_password } ==> (ev is CodeAccepted ==> {
            &&& r.0 matches ResetConfirmState::Hashing { user_id: id }
            &&& id == user_id
            &&& r.1 matches ResetConfirmAction::Hash { password, iterations }
            &&& password == new_password && iterations == PBKDF2_ITERATIONS
        }),
        st is Checking ==> (ev matches ResetConfirmEvent::CodeRefused { status, message } ==> confirm_refused(
            r,
            status,
            message@,
        )),
        st matches ResetConfirmState::Hashing { user_id } ==> (ev matches ResetConfirmEvent::Hashed { hash, salt } ==> {
            &&& r.0 is Done
            &&& r.1 matches ResetConfirmAction::SetPassword { user_id: id, hash: h, salt: s, iterations }
            &&& id == user_id && h == hash && s == salt && iterations == PBKDF2_ITERATIONS
        }),
        st is Hashing ==> (ev matches ResetConfirmEvent::HashFailed { message } ==> confirm_refused(r, 503, message@)),
{
    match st {
        ResetConfirmState::Start => match ev {
            ResetConfirmEvent::Request { phone, code, new_password } => match normalize_phone(phone.as_str()) {
                None => confirm_refuse(400, string_from("手机号格式不正确。")),
                Some(p) => {
                    let l = p.clone();
                    (
                        ResetConfirmState::LookingUp { phone: p, code, new_password },
                        ResetConfirmAction::LookUp { phone: l },
                    )
                },
            },
            _ => confirm_refuse(500, string_from("请求处理出错，请重新开始。")),
        },
        ResetConfirmState::LookingUp { phone, code, new_password } => match ev {
            ResetConfirmEvent::Found { user } => match user {
                None => confirm_refuse(400, string_from("验证码已过期，请重新获取。")),
                Some(u) => match validate_password(new_password.as_str(), u.username.as_str(), phone.as_str()) {
                    Err(e) => confirm_refuse(400, e),
                    Ok(()) => (
                        ResetConfirmState::Checking { user_id: u.id, new_password },
                        ResetConfirmAction::CheckCode { purpose: Purpose::Reset, phone, code },
                    ),
                },
            },
            _ => confirm_refuse(500, string_from("请求处理出错，请重新开始。")),
        },
        ResetConfirmState::Checking { user_id, new_password } => match ev {
            ResetConfirmEvent::CodeAccepted => (
                ResetConfirmState::Hashing { user_id },
                ResetConfirmAction::Hash { password: new_password, iterations: PBKDF2_ITERATIONS },
            ),
            ResetConfirmEvent::CodeRefused { status, message } => confirm_refuse(status, message),
            _ => confirm_refuse(500, string_from("请求处理出错，请重新开始。")),
        },
        ResetConfirmState::Hashing { user_id } => match ev {
            ResetConfirmEvent::Hashed { hash, salt } => (
                ResetConfirmState::Done,
                ResetConfirmAction::SetPassword { user_id, hash, salt, iterations: PBKDF2_ITERATIONS },
            ),
            ResetConfirmEvent::HashFailed { message } => confirm_refuse(503, message),
            _ => confirm_refuse(500, string_from("请求处理出错，请重新开始。")),
        },
        ResetConfirmState::Done => confirm_refuse(500, string_from("请求处理出错，请重新开始。")),
    }
}

// ---------------------------------------------------------------- resending a sign-up code

/// Where a request to resend a sign-up code stands.
pub enum RegisterResendState {
    /// Nothing received yet.
    Start,
    /// Waiting to learn whether a sign-up is pending for the phone.
    LookingUp { phone: String, ip: String },
    /// Waiting for the code to go out.
    Sending { phone: String },
    /// The request has been answered.
    Done,
}

/// What the caller reports back.
pub enum RegisterResendEvent {
    /// The request as received, with the client's IP.
    Request { phone: String, ip: String },
    /// Whether a sign-up is pending for the phone.
    Looked { exists: bool },
    /// The code went out; with the log sender, the code it made.
    CodeSent { local_code: Option<String> },
    /// The SMS could not be sent.
    SendFailed { message: String },
}

/// What the caller is asked to do next.
pub enum RegisterResendAction {
    /// Answer with this status and message; the request is over.
    Refuse { status: u16, message: String },
    /// Find out whether a pending verification is stored under this key.
    LookUp { key: String },
    /// Send a sign-up code to this phone.
    SendCode { phone: String },
    /// Answer that a code was sent to this phone; the request is over.
    Respond { phone: String },
    /// Give the pending verification under `key` this expiry, fresh attempts and the new
    /// code's HMAC, then answer that a code was sent to `phone`.
    RenewPending { key: String, expires_at: u64, local_code_hmac: Option<Vec<u8>>, phone: String },
}

/// The step ends the request with this refusal.
pub open spec fn resend_refused(r: (RegisterResendState, RegisterResendAction), status: u16, msg: Seq<char>) -> bool {
    &&& r.0 is Done
    &&& r.1 matches RegisterResendAction::Refuse { status: s, message: m }
    &&& s == status
    &&& m@ == msg
}

/// The events that each state waits for.
pub open spec fn resend_in_order(st: RegisterResendState, ev: RegisterResendEvent) -> bool {
    ||| st is Start && ev is Request
    ||| st is LookingUp && ev is Looked
    ||| st is Sending && (ev is CodeSent || ev is SendFailed)
}

fn resend_refuse(status: u16, message: String) -> (r: (RegisterResendState, RegisterResendAction))
    ensures
        resend_refused(r, status, message@),
{
    (RegisterResendState::Done, RegisterResendAction::Refuse { status, message })
}

/// One step of resending a sign-up code at time `now`. It shares the quota of the first
/// sign-up step, a pending sign-up counting as a known phone; with no sign-up pending,
/// nothing is sent and the answer is the same.
pub fn register_resend_step(
    st: RegisterResendState,
    ev: RegisterResendEvent,
    rl: &mut RateLimiter,
    pepper: &[u8],
    now: u64,
    interval: u64,
    cap: usize,
) -> (r: (RegisterResendState, RegisterResendAction))
    requires
        old(rl).wf(),
        now + PENDING_TTL_SECS <= u64::MAX,
    ensures
        final(rl).wf(),
        !(st is LookingUp && ev is Looked) ==> final(rl)@ == old(rl)@,
        !resend_in_order(st, ev) ==> resend_refused(r, 500, out_of_order_message()),
        st is Start ==> (ev matches RegisterResendEvent::Request { phone, ip } ==> match normalize_phone_spec(phone@) {
            None => resend_refused(r, 400, "手机号格式不正确。"@),
            Some(p) => {
                &&& r.0 matches RegisterResendState::LookingUp { phone: q, ip: i }
                &&& q@ == p && i == ip
                &&& r.1 matches RegisterResendAction::LookUp { key }
                &&& key@ == pending_key_spec(Purpose::Register, p)
            },
        }),
        st matches RegisterResendState::LookingUp { phone, ip } ==> (ev matches RegisterResendEvent::Looked { exists } ==> {
            let (m, res) = sms_quota_outcome(old(rl)@, phone@, ip@, exists, interval, cap, now);
            &&& final(rl)@ == m
            &&& res is Err ==> resend_refused(r, 429, res->Err_0)
            &&& (res is Ok && exists) ==> {
                &&& r.0 matches RegisterResendState::Sending { phone: q }
                &&& q == phone
                &&& r.1 matches RegisterResendAction::SendCode { phone: c }
                &&& c@ == phone@
            }
            &&& (res is Ok && !exists) ==> {
                &&& r.0 is Done
                &&& r.1 matches RegisterResendAction::Respond { phone: q }
                &&& q == phone
            }
        }),
        st matches RegisterResendState::Sending { phone } ==> (
        ev matches RegisterResendEvent::CodeSent { local_code } ==> {
            &&& r.0 is Done
            &&& r.1 matches RegisterResendAction::RenewPending { key, expires_at, local_code_hmac: h, phone: q }
            &&& key@ == pending_key_spec(Purpose::Register, phone@)
            &&& expires_at == now + PENDING_TTL_SECS && q == phone
            &&& bytes_opt(h) == code_digest(pepper@, local_code)
        }),
        st is Sending ==> (ev matches RegisterResendEvent::SendFailed { message } ==> resend_refused(r, 400, message@)),
{
    match st {
        RegisterResendState::Start => match ev {
            RegisterResendEvent::Request { phone, ip } => match normalize_phone(phone.as_str()) {
                None => resend_refuse(400, string_from("手机号格式不正确。")),
                Some(p) => {
                    let key = pending_key(Purpose::Register, p.as_str());
                    (RegisterResendState::LookingUp { phone: p, ip }, RegisterResendAction::LookUp { key })
                },
            },
            _ => resend_refuse(500, string_from("请求处理出错，请重新开始。")),
        },
        RegisterResendState::LookingUp { phone, ip } => match ev {
            RegisterResendEvent::Looked { exists } => {
                match check_sms_quota_at(rl, phone.as_str(), ip.as_str(), exists, interval, cap, now) {
                    Err(e) => resend_refuse(429, e),
                    Ok(()) => if exists {
                        let c = phone.clone();
                        (RegisterResendState::Sending { phone }, RegisterResendAction::SendCode { phone: c })
                    } else {
                        (RegisterResendState::Done, RegisterResendAction::Respond { phone })
                    },
                }
            },
            _ => resend_refuse(500, string_from("请求处理出错，请重新开始。")),
        },
        RegisterResendState::Sending { phone } => match ev {
            RegisterResendEvent::CodeSent { local_code } => {
                let local_code_hmac = digest_of(pepper, local_code);
                let key = pending_key(Purpose::Register, phone.as_str());
                (
                    RegisterResendState::Done,
                    RegisterResendAction::RenewPending { key, expires_at: now + PENDING_TTL_SECS, local_code_hmac, phone },
                )
            },
            RegisterResendEvent::SendFailed { message } => resend_refuse(400, message),
            _ => resend_refuse(500, string_from("请求处理出错，请重新开始。")),
        },
        RegisterResendState::Done => resend_refuse(500, string_from("请求处理出错，请重新开始。")),
    }
}

// ---------------------------------------------------------------- changing the password

/// Where a password change stands.
pub enum ChangePasswordState {
    /// Nothing received yet.
    Start,
    /// Waiting for the old password to be checked.
    Verifying { user_id: String, username: String, phone: String, new_password: String },
    /// Waiting for the new password's hash.
    Hashing { user_id: String },
    /// The request has been answered.
    Done,
}

/// What the caller reports back.
pub enum ChangePasswordEvent {
    /// The request, with the signed-in user (none if the account is gone).
    Request { user: Option<User>, old_password: String, new_password: String },
    /// Whether the old password matched.
    Verified { ok: bool },
    /// The new password's hash and the salt it was made with.
    Hashed { hash: Vec<u8>, salt: Vec<u8> },
    /// No hashing slot was free.
    HashFailed { message: String },
}

/// What the caller is asked to do next.
pub enum ChangePasswordAction {
    /// Answer with this status and message; the request is over.
    Refuse { status: u16, message: String },
    /// Check the old password against the stored hash.
    Verify { password: String, salt: Vec<u8>, iterations: u32, expected: Vec<u8> },
    /// Hash the new password with a fresh salt and this many iterations.
    Hash { password: String, iterations: u32 },
    /// Store the new password of this user, end all of its sessions, and answer success.
    SetPassword { user_id: String, hash: Vec<u8>, salt: Vec<u8>, iterations: u32 },
}

/// The step ends the request with this refusal.
pub open spec fn change_refused(r: (ChangePasswordState, ChangePasswordAction), status: u16, msg: Seq<char>) -> bool {
    &&& r.0 is Done
    &&& r.1 matches ChangePasswordAction::Refuse { status: s, message: m }
    &&& s == status
    &&& m@ == msg
}

/// The events that each state waits for.
pub open spec fn change_in_order(st: ChangePasswordState, ev: ChangePasswordEvent) -> bool {
    ||| st is Start && ev is Request
    ||| st is Verifying && (ev is Verified || ev is HashFailed)
    ||| st is Hashing && (ev is Hashed || ev is HashFailed)
}

fn change_refuse(status: u16, message: String) -> (r: (ChangePasswordState, ChangePasswordAction))
    ensures
        change_refused(r, status, message@),
{
    (ChangePasswordState::Done, ChangePasswordAction::Refuse { status, message })
}

/// One step of a password change: the old password is checked first, then the new one is
/// held to the policy, then hashed.
pub fn change_password_step(st: ChangePasswordState, ev: ChangePasswordEvent) -> (r: (
    ChangePasswordState,
    ChangePasswordAction,
))
    ensures
        !change_in_order(st, ev) ==> change_refused(r, 500, out_of_order_message()),
        st is Start ==> (ev matches ChangePasswordEvent::Request { user, old_password, new_password } ==> match user {
            None => change_refused(r, 401, "登录已过期，请重新登录。"@),
            Some(u) => {
                &&& r.0 matches ChangePasswordState::Verifying { user_id, username, phone, new_password: w }
                &&& user_id == u.id && username == u.username && phone == u.phone && w == new_password
                &&& r.1 matches ChangePasswordAction::Verify { password, salt, iterations, expected }
                &&& password == old_password && salt == u.password_salt && iterations == u.pbkdf2_iterations
                &&& expected == u.password_hash
            },
        }),
        st matches ChangePasswordState::Verifying { user_id, username, phone, new_password } ==> (
        ev matches ChangePasswordEvent::Verified { ok } ==> if !ok {
            change_refused(r, 401, "原密码不对。"@)
        } else {
            match password_error(new_password@, username@, phone@) {
                Some(e) => change_refused(r, 400, e),
                None => {
                    &&& r.0 matches ChangePasswordState::Hashing { user_id: id }
                    &&& id == user_id
                    &&& r.1 matches ChangePasswordAction::Hash { password, iterations }
                    &&& password == new_password && iterations == PBKDF2_ITERATIONS
                },
            }
        }),
        (st is Verifying || st is Hashing) ==> (ev matches ChangePasswordEvent::HashFailed { message } ==> change_refused(
            r,
            503,
            message@,
        )),
        st matches ChangePasswordState::Hashing { user_id } ==> (ev matches ChangePasswordEvent::Hashed { hash, salt } ==> {
            &&& r.0 is Done
            &&& r.1 matches ChangePasswordAction::SetPassword { user_id: id, hash: h, salt: s, iterations }
            &&& id == user_id && h == hash && s == salt && iterations == PBKDF2_ITERATIONS
        }),
{
    match st {
        ChangePasswordState::Start => match ev {
            ChangePasswordEvent::Request { user, old_password, new_password } => match user {
                None => change_refuse(401, string_from("登录已过期，请重新登录。")),
                Some(u) => (
                    ChangePasswordState::Verifying {
                        user_id: u.id,
                        username: u.username,
                        phone: u.phone,
                        new_password,
                    },
                    ChangePasswordAction::Verify {
                        password: old_password,
                        salt: u.password_salt,
                        iterations: u.pbkdf2_iterations,
                        expected: u.password_hash,
                    },
                ),
            },
            _ => change_refuse(500, string_from("请求处理出错，请重新开始。")),
        },
        ChangePasswordState::Verifying { user_id, username, phone, new_password } => match ev {
            ChangePasswordEvent::Verified { ok } => {
                if !ok {
                    return change_refuse(401, string_from("原密码不对。"));
                }
                match validate_password(new_password.as_str(), username.as_str(), phone.as_str()) {
                    Err(e) => change_refuse(400, e),
                    Ok(()) => (
                        ChangePasswordState::Hashing { user_id },
                        ChangePasswordAction::Hash { password: new_password, iterations: PBKDF2_ITERATIONS },
                    ),
                }
            },
            ChangePasswordEvent::HashFailed { message } => change_refuse(503, message),
            _ => change_refuse(500, string_from("请求处理出错，请重新开始。")),
        },
        ChangePasswordState::Hashing { user_id } => match ev {
            ChangePasswordEvent::Hashed { hash, salt } => (
                ChangePasswordState::Done,
                ChangePasswordAction::SetPassword { user_id, hash, salt, iterations: PBKDF2_ITERATIONS },
            ),
            ChangePasswordEvent::HashFailed { message } => change_refuse(503, message),
            _ => change_refuse(500, string_from("请求处理出错，请重新开始。")),
        },
        ChangePasswordState::Done => change_refuse(500, string_from("请求处理出错，请重新开始。")),
    }
}

} // verus!
