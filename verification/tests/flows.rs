use soul_lantern::auth::{PendingVerification, RateLimiter, User, PENDING_TTL_SECS};
use soul_lantern::crypto::{hmac_sha256, PBKDF2_ITERATIONS};
use soul_lantern::flows::{
    code_check_step, login_step, register_begin_step, reset_begin_step, CodeCheckAction, CodeCheckEvent, CodeCheckState,
    LoginAction, LoginEvent, LoginState, RegisterBeginAction, RegisterBeginEvent, RegisterBeginState, ResetBeginAction,
    ResetBeginEvent, ResetBeginState,
};
use soul_lantern::sms::Purpose;

const NOW: u64 = 1_700_000_000;

fn request(phone: &str, username: &str, password: &str) -> RegisterBeginEvent {
    RegisterBeginEvent::Request {
        phone: phone.to_string(),
        username: username.to_string(),
        password: password.to_string(),
        ip: "10.0.0.1".to_string(),
    }
}

fn step(st: RegisterBeginState, ev: RegisterBeginEvent, rl: &mut RateLimiter) -> (RegisterBeginState, RegisterBeginAction) {
    register_begin_step(st, ev, rl, PEPPER, NOW, 60, 1000)
}

fn refusal(a: RegisterBeginAction) -> (u16, String) {
    match a {
        RegisterBeginAction::Refuse { status, message } => (status, message),
        _ => panic!("expected a refusal"),
    }
}

#[test]
fn sign_up_refuses_bad_input_in_order() {
    let mut rl = RateLimiter::default();
    let (st, a) = step(RegisterBeginState::Start, request("12345", "steve", "correct horse"), &mut rl);
    assert!(matches!(st, RegisterBeginState::Done));
    assert_eq!(refusal(a), (400, "手机号格式不正确。".to_string()));
    let (_, a) = step(RegisterBeginState::Start, request("13800138000", "x", "correct horse"), &mut rl);
    assert_eq!(refusal(a), (400, "用户名需要 2~24 个字符。".to_string()));
    let (_, a) = step(RegisterBeginState::Start, request("13800138000", "steve", "short"), &mut rl);
    assert_eq!(refusal(a), (400, "密码至少 8 个字符。".to_string()));
    assert_eq!(rl.count_at("sms:phone24:13800138000", 86400, NOW), 0);
}

#[test]
fn sign_up_for_a_registered_phone_hashes_and_answers_without_a_code() {
    let mut rl = RateLimiter::default();
    let (st, a) = step(RegisterBeginState::Start, request("138 0013 8000", "  steve  ", "correct horse"), &mut rl);
    match a {
        RegisterBeginAction::LookUp { phone } => assert_eq!(phone, "13800138000"),
        _ => panic!("expected a look-up"),
    }
    let (st, a) = step(st, RegisterBeginEvent::Looked { known: true }, &mut rl);
    match a {
        RegisterBeginAction::Hash { password, iterations } => {
            assert_eq!(password, "correct horse");
            assert_eq!(iterations, PBKDF2_ITERATIONS);
        }
        _ => panic!("expected a hash"),
    }
    assert_eq!(rl.count_at("sms:phone24:13800138000", 86400, NOW), 1);
    let (st, a) = step(st, RegisterBeginEvent::Hashed { hash: vec![1; 32], salt: vec![2; 16] }, &mut rl);
    assert!(matches!(st, RegisterBeginState::Done));
    match a {
        RegisterBeginAction::Respond { phone } => assert_eq!(phone, "13800138000"),
        _ => panic!("expected the same answer as for a new phone"),
    }
}

#[test]
fn sign_up_for_a_new_phone_stores_the_pending_record() {
    let mut rl = RateLimiter::default();
    let (st, _) = step(RegisterBeginState::Start, request("13800138000", "  Steve  ", "correct horse"), &mut rl);
    let (st, _) = step(st, RegisterBeginEvent::Looked { known: false }, &mut rl);
    let (st, a) = step(st, RegisterBeginEvent::Hashed { hash: vec![1; 32], salt: vec![2; 16] }, &mut rl);
    match a {
        RegisterBeginAction::SendCode { phone } => assert_eq!(phone, "13800138000"),
        _ => panic!("expected a code to be sent"),
    }
    let (st, a) = step(st, RegisterBeginEvent::CodeSent { local_code: Some("123456".to_string()) }, &mut rl);
    assert!(matches!(st, RegisterBeginState::Done));
    match a {
        RegisterBeginAction::StorePending { key, pending } => {
            assert_eq!(key, "register:13800138000");
            assert_eq!(pending.kind, "register");
            assert_eq!(pending.phone, "13800138000");
            assert_eq!(pending.created_at, NOW);
            assert_eq!(pending.expires_at, NOW + PENDING_TTL_SECS);
            assert_eq!(pending.attempts, 0);
            assert_eq!(pending.username.as_deref(), Some("Steve"));
            assert_eq!(pending.username_key.as_deref(), Some("steve"));
            assert_eq!(pending.password_hash, Some(vec![1; 32]));
            assert_eq!(pending.password_salt, Some(vec![2; 16]));
            assert_eq!(pending.pbkdf2_iterations, Some(PBKDF2_ITERATIONS));
            assert_eq!(pending.local_code_hmac, Some(hmac_sha256(PEPPER, b"123456")));
        }
        _ => panic!("expected the pending record"),
    }
}

#[test]
fn sign_up_quota_comes_before_the_hash() {
    let mut rl = RateLimiter::default();
    let (st, _) = step(RegisterBeginState::Start, request("13800138000", "steve", "correct horse"), &mut rl);
    let (_, a) = step(st, RegisterBeginEvent::Looked { known: false }, &mut rl);
    assert!(matches!(a, RegisterBeginAction::Hash { .. }));
    let (st, _) = step(RegisterBeginState::Start, request("13800138000", "steve", "correct horse"), &mut rl);
    let (st, a) = step(st, RegisterBeginEvent::Looked { known: false }, &mut rl);
    assert!(matches!(st, RegisterBeginState::Done));
    assert_eq!(refusal(a), (429, "验证码刚发过，请 60 秒后再试。".to_string()));
}

#[test]
fn sign_up_failures_of_the_outside_work_are_answered() {
    let mut rl = RateLimiter::default();
    let (st, _) = step(RegisterBeginState::Start, request("13800138000", "steve", "correct horse"), &mut rl);
    let (st, _) = step(st, RegisterBeginEvent::Looked { known: false }, &mut rl);
    let (_, a) = step(st, RegisterBeginEvent::HashFailed { message: "服务器忙，请稍后再试。".to_string() }, &mut rl);
    assert_eq!(refusal(a), (503, "服务器忙，请稍后再试。".to_string()));
    let sending = RegisterBeginState::Sending {
        phone: "13800138000".to_string(),
        username: "steve".to_string(),
        hash: vec![1],
        salt: vec![2],
    };
    let (_, a) = step(sending, RegisterBeginEvent::SendFailed { message: "短信发送失败".to_string() }, &mut rl);
    assert_eq!(refusal(a), (400, "短信发送失败".to_string()));
    let (_, a) = step(RegisterBeginState::Done, RegisterBeginEvent::Looked { known: true }, &mut rl);
    assert_eq!(refusal(a).0, 500);
}

fn user() -> User {
    User {
        id: "u1".to_string(),
        username: "steve".to_string(),
        username_key: "steve".to_string(),
        phone: "13800138000".to_string(),
        password_hash: vec![7; 32],
        password_salt: vec![8; 16],
        pbkdf2_iterations: 1000,
        created_at: 1,
        last_login_at: 1,
    }
}

fn login_request(account: &str) -> LoginEvent {
    LoginEvent::Request { account: account.to_string(), password: "pw".to_string(), ip: "10.0.0.2".to_string() }
}

fn login_refusal(a: LoginAction) -> (u16, String) {
    match a {
        LoginAction::Refuse { status, message } => (status, message),
        _ => panic!("expected a refusal"),
    }
}

#[test]
fn log_in_success_takes_back_the_attempt() {
    let mut rl = RateLimiter::default();
    let (st, a) = login_step(LoginState::Start, login_request(" Steve "), &mut rl, NOW);
    match a {
        LoginAction::LookUp { account } => assert_eq!(account, "Steve"),
        _ => panic!("expected a look-up"),
    }
    assert_eq!(rl.count_at("login:acct:steve", 900, NOW), 1);
    let (st, a) = login_step(st, LoginEvent::Found { user: Some(user()) }, &mut rl, NOW);
    match a {
        LoginAction::Verify { password, salt, iterations, expected } => {
            assert_eq!(password, "pw");
            assert_eq!(salt, vec![8; 16]);
            assert_eq!(iterations, 1000);
            assert_eq!(expected, vec![7; 32]);
        }
        _ => panic!("expected a password check"),
    }
    let (st, a) = login_step(st, LoginEvent::Verified { ok: true }, &mut rl, NOW);
    assert!(matches!(st, LoginState::Done));
    match a {
        LoginAction::Succeed { user_id } => assert_eq!(user_id, "u1"),
        _ => panic!("expected success"),
    }
    assert_eq!(rl.count_at("login:acct:steve", 900, NOW), 0);
    assert_eq!(rl.count_at("login:ip:10.0.0.2", 900, NOW), 0);
}

#[test]
fn log_in_unknown_account_and_wrong_password_get_the_same_words() {
    let mut rl = RateLimiter::default();
    let (st, _) = login_step(LoginState::Start, login_request("nobody"), &mut rl, NOW);
    let (_, a) = login_step(st, LoginEvent::Found { user: None }, &mut rl, NOW);
    let unknown = match a {
        LoginAction::DecoyThenRefuse { status, message } => (status, message),
        _ => panic!("expected a decoy hash"),
    };
    let (st, _) = login_step(LoginState::Start, login_request("steve"), &mut rl, NOW);
    let (st, _) = login_step(st, LoginEvent::Found { user: Some(user()) }, &mut rl, NOW);
    let (_, a) = login_step(st, LoginEvent::Verified { ok: false }, &mut rl, NOW);
    assert_eq!(login_refusal(a), unknown);
    assert_eq!(unknown, (401, "用户名或密码不对。".to_string()));
}

#[test]
fn log_in_lockout_comes_before_any_look_up() {
    let mut rl = RateLimiter::default();
    for _ in 0..5 {
        let (_, a) = login_step(LoginState::Start, login_request("ghost"), &mut rl, NOW);
        assert!(matches!(a, LoginAction::LookUp { .. }));
    }
    let (st, a) = login_step(LoginState::Start, login_request("ghost"), &mut rl, NOW);
    assert!(matches!(st, LoginState::Done));
    assert_eq!(login_refusal(a), (429, "登录失败次数过多，请 15 分钟后再试。".to_string()));
}

fn reset_request(phone: &str) -> ResetBeginEvent {
    ResetBeginEvent::Request { phone: phone.to_string(), ip: "10.0.0.3".to_string() }
}

#[test]
fn reset_for_an_unknown_phone_answers_like_a_known_one() {
    let mut rl = RateLimiter::default();
    let (st, a) = reset_begin_step(ResetBeginState::Start, reset_request("abc"), &mut rl, PEPPER, NOW, 60, 1000);
    assert!(matches!(st, ResetBeginState::Done));
    assert!(matches!(a, ResetBeginAction::Refuse { status: 400, .. }));
    let (st, _) = reset_begin_step(ResetBeginState::Start, reset_request("13800138000"), &mut rl, PEPPER, NOW, 60, 1000);
    let (st, a) = reset_begin_step(st, ResetBeginEvent::Looked { known: false }, &mut rl, PEPPER, NOW, 60, 1000);
    assert!(matches!(st, ResetBeginState::Done));
    match a {
        ResetBeginAction::RespondAtDeadline { phone } => assert_eq!(phone, "13800138000"),
        _ => panic!("expected the usual answer"),
    }
    assert_eq!(rl.count_at("sms:global", 86400, NOW), 1);
}

#[test]
fn reset_for_a_known_phone_stores_a_reset_record() {
    let mut rl = RateLimiter::default();
    let (st, _) = reset_begin_step(ResetBeginState::Start, reset_request("13800138000"), &mut rl, PEPPER, NOW, 60, 1000);
    let (st, a) = reset_begin_step(st, ResetBeginEvent::Looked { known: true }, &mut rl, PEPPER, NOW, 60, 1000);
    assert!(matches!(a, ResetBeginAction::SendCode { .. }));
    let (st, a) = reset_begin_step(st, ResetBeginEvent::CodeSent { local_code: None }, &mut rl, PEPPER, NOW, 60, 1000);
    assert!(matches!(st, ResetBeginState::Done));
    match a {
        ResetBeginAction::StorePending { key, pending } => {
            assert_eq!(key, "reset:13800138000");
            assert_eq!(pending.kind, "reset");
            assert_eq!(pending.expires_at, NOW + PENDING_TTL_SECS);
            assert!(pending.username.is_none() && pending.password_hash.is_none());
        }
        _ => panic!("expected the pending record"),
    }
    let (st, _) = reset_begin_step(ResetBeginState::Start, reset_request("13800138000"), &mut rl, PEPPER, NOW, 60, 1000);
    let (_, a) = reset_begin_step(st, ResetBeginEvent::Looked { known: true }, &mut rl, PEPPER, NOW, 60, 1000);
    assert!(matches!(a, ResetBeginAction::RefuseAtDeadline { status: 429, .. }));
}

const PEPPER: &[u8] = b"pepper";

fn pending(expires_at: u64, attempts: u32, hmac: Option<Vec<u8>>) -> PendingVerification {
    PendingVerification {
        kind: "reset".to_string(),
        phone: "13800138000".to_string(),
        created_at: NOW,
        expires_at,
        attempts,
        username: None,
        username_key: None,
        password_hash: None,
        password_salt: None,
        pbkdf2_iterations: None,
        local_code_hmac: hmac,
    }
}

fn check(p: Option<PendingVerification>, code: &str) -> (CodeCheckState, CodeCheckAction) {
    let ev = CodeCheckEvent::Request { purpose: Purpose::Reset, phone: "13800138000".to_string(), code: code.to_string() };
    let (st, a) = code_check_step(CodeCheckState::Start, ev, PEPPER, NOW);
    match a {
        CodeCheckAction::LookUp { key } => assert_eq!(key, "reset:13800138000"),
        _ => panic!("expected a look-up"),
    }
    code_check_step(st, CodeCheckEvent::Found { pending: p }, PEPPER, NOW)
}

#[test]
fn code_check_gates_and_local_codes() {
    let good = Some(hmac_sha256(PEPPER, b"123456"));
    match check(None, "123456").1 {
        CodeCheckAction::Refuse { status, message } => {
            assert_eq!((status, message.as_str()), (400, "验证码已过期，请重新获取。"))
        }
        _ => panic!("expected a refusal"),
    }
    match check(Some(pending(NOW, 0, good.clone())), "123456").1 {
        CodeCheckAction::Refuse { status, message } => {
            assert_eq!((status, message.as_str()), (400, "验证码已过期，请重新获取。"))
        }
        _ => panic!("expected a refusal"),
    }
    assert!(matches!(check(Some(pending(NOW + 10, 8, good.clone())), "123456").1, CodeCheckAction::Refuse { status: 429, .. }));
    match check(Some(pending(NOW + 10, 0, good.clone())), "123 456").1 {
        CodeCheckAction::Accept { key, pending } => {
            assert_eq!(key, "reset:13800138000");
            assert_eq!(pending.expires_at, NOW + 10);
        }
        _ => panic!("expected the code to be accepted"),
    }
    match check(Some(pending(NOW + 10, 0, good)), "654321").1 {
        CodeCheckAction::NoteFailureThenRefuse { key, status, message } => {
            assert_eq!(key, "reset:13800138000");
            assert_eq!((status, message.as_str()), (400, "验证码不对，请检查后重新输入。"));
        }
        _ => panic!("expected a wrong code"),
    }
}

#[test]
fn code_check_asks_the_provider_for_its_own_codes() {
    let (st, a) = check(Some(pending(NOW + 10, 0, None)), "12-34 56");
    match a {
        CodeCheckAction::AskProvider { phone, code } => {
            assert_eq!(phone, "13800138000");
            assert_eq!(code, "123456");
        }
        _ => panic!("expected the provider to be asked"),
    }
    let (_, a) = code_check_step(st, CodeCheckEvent::Checked { ok: false }, PEPPER, NOW);
    assert!(matches!(a, CodeCheckAction::NoteFailureThenRefuse { status: 400, .. }));
}

use soul_lantern::ai_proxy::FALLBACK_COINS;
use soul_lantern::flows::{ai_generate_step, AiGenerateAction, AiGenerateEvent, AiGenerateState};
use soul_lantern::give::builder::GiveVersion;
use soul_lantern::give::catalog::GiveCatalogs;
use soul_lantern::give::json::JsonValue;

fn empty_catalogs() -> GiveCatalogs {
    GiveCatalogs {
        items: &[],
        blocks: &[],
        entities: &[],
        bedrock_items: &[],
        bedrock_blocks: &[],
        bedrock_entities: &[],
        enchants: &[],
        effects: &[],
        attributes: &[],
        particles: &[],
    }
}

fn ai_step(st: AiGenerateState, ev: AiGenerateEvent) -> (AiGenerateState, AiGenerateAction) {
    ai_generate_step(st, ev, GiveVersion::Java1_21_5, &empty_catalogs(), &mut 0)
}

fn s(t: &str) -> JsonValue {
    JsonValue::String(t.to_string())
}

#[test]
fn ai_without_coins_is_turned_away_before_the_model_is_called() {
    let ev = AiGenerateEvent::Request { balance: 0, model: None, default_model: "m".to_string() };
    match ai_step(AiGenerateState::Start, ev).1 {
        AiGenerateAction::Fail { message, balance, usage, raw_content } => {
            assert_eq!(message, "余额不足，请先激活 / 充值。");
            assert_eq!(balance, 0);
            assert!(usage.is_none() && raw_content.is_none());
        }
        _ => panic!("expected a failure"),
    }
}

fn replied(content: &str) -> (AiGenerateState, AiGenerateAction) {
    let ev = AiGenerateEvent::Request { balance: 100, model: Some("   ".to_string()), default_model: "deepseek-chat".to_string() };
    let (st, a) = ai_step(AiGenerateState::Start, ev);
    match a {
        AiGenerateAction::CallUpstream { model } => assert_eq!(model, "deepseek-chat"),
        _ => panic!("expected a call"),
    }
    let (st, a) = ai_step(st, AiGenerateEvent::Replied { content: content.to_string(), usage: None });
    match a {
        AiGenerateAction::Charge { coins } => assert_eq!(coins, FALLBACK_COINS),
        _ => panic!("a reply is always charged"),
    }
    let (st, a) = ai_step(st, AiGenerateEvent::Charged { balance: 90 });
    match a {
        AiGenerateAction::ReadJson { text } => assert_eq!(text, "{}"),
        _ => panic!("expected the reply to be read"),
    }
    (st, AiGenerateAction::ReadJson { text: String::new() })
}

#[test]
fn ai_reply_that_is_not_json_is_still_charged() {
    let (st, _) = replied("```json\n{}\n```");
    match ai_step(st, AiGenerateEvent::Read { doc: None }).1 {
        AiGenerateAction::Fail { balance, raw_content, .. } => {
            assert_eq!(balance, 90);
            assert_eq!(raw_content.as_deref(), Some("```json\n{}\n```"));
        }
        _ => panic!("expected a failure"),
    }
}

#[test]
fn ai_reply_is_dispatched_and_sorted() {
    let (st, _) = replied("{}");
    let intent = JsonValue::Object(vec![
        ("command".to_string(), s("say")),
        ("form".to_string(), JsonValue::Object(vec![("message".to_string(), s("hi"))])),
    ]);
    let action = JsonValue::Object(vec![("kind".to_string(), s("explode"))]);
    let bad = JsonValue::Object(vec![
        ("command".to_string(), s("scoreboard")),
        ("form".to_string(), JsonValue::Object(vec![("action".to_string(), action)])),
    ]);
    let doc = JsonValue::Object(vec![
        ("intents".to_string(), JsonValue::Array(vec![intent, bad])),
        ("explanation".to_string(), s("打个招呼")),
    ]);
    match ai_step(st, AiGenerateEvent::Read { doc: Some(doc) }).1 {
        AiGenerateAction::Succeed { commands, loop_commands, failures, explanation, raw_content, balance, .. } => {
            assert_eq!(commands, vec!["say hi".to_string()]);
            assert!(loop_commands.is_empty());
            assert_eq!(failures, vec![r#"scoreboard：未知 scoreboard 动作: {"kind":"explode"}"#.to_string()]);
            assert_eq!(explanation, "打个招呼");
            assert_eq!(raw_content, "{}");
            assert_eq!(balance, 90);
        }
        _ => panic!("expected success"),
    }
}

use soul_lantern::flows::{
    register_resend_step, register_verify_step, reset_confirm_step, RegisterResendAction, RegisterResendEvent,
    RegisterResendState, RegisterVerifyAction, RegisterVerifyEvent, RegisterVerifyState, ResetConfirmAction,
    ResetConfirmEvent, ResetConfirmState,
};

fn sign_up_pending() -> PendingVerification {
    PendingVerification {
        kind: "register".to_string(),
        phone: "13800138000".to_string(),
        created_at: NOW,
        expires_at: NOW + 60,
        attempts: 0,
        username: Some("Steve".to_string()),
        username_key: Some("steve".to_string()),
        password_hash: Some(vec![1; 32]),
        password_salt: Some(vec![2; 16]),
        pbkdf2_iterations: Some(600_000),
        local_code_hmac: None,
    }
}

#[test]
fn verify_builds_the_user_from_the_pending_sign_up() {
    let ev = RegisterVerifyEvent::Request { phone: "+86 138-0013-8000".to_string(), code: "1234".to_string() };
    let (st, a) = register_verify_step(RegisterVerifyState::Start, ev, NOW);
    match a {
        RegisterVerifyAction::CheckCode { purpose, phone, code } => {
            assert_eq!(purpose, Purpose::Register);
            assert_eq!(phone, "13800138000");
            assert_eq!(code, "1234");
        }
        _ => panic!("expected a code check"),
    }
    let (_, a) = register_verify_step(st, RegisterVerifyEvent::CodeAccepted { pending: sign_up_pending() }, NOW);
    match a {
        RegisterVerifyAction::FinishRegistration { user } => {
            assert_eq!(user.id.len(), 43);
            assert_eq!(user.username, "Steve");
            assert_eq!(user.username_key, "steve");
            assert_eq!(user.phone, "13800138000");
            assert_eq!(user.password_hash, vec![1; 32]);
            assert_eq!(user.pbkdf2_iterations, 600_000);
            assert_eq!((user.created_at, user.last_login_at), (NOW, NOW));
        }
        _ => panic!("expected the user"),
    }
}

#[test]
fn verify_refuses_a_pending_record_without_sign_up_details() {
    let checking = RegisterVerifyState::Checking { phone: "13800138000".to_string() };
    let mut p = sign_up_pending();
    p.password_salt = None;
    match register_verify_step(checking, RegisterVerifyEvent::CodeAccepted { pending: p }, NOW).1 {
        RegisterVerifyAction::Refuse { status, message } => {
            assert_eq!((status, message.as_str()), (400, "注册信息已失效，请重新注册。"))
        }
        _ => panic!("expected a refusal"),
    }
    let checking = RegisterVerifyState::Checking { phone: "13800138000".to_string() };
    let ev = RegisterVerifyEvent::CodeRefused { status: 429, message: "x".to_string() };
    assert!(matches!(register_verify_step(checking, ev, NOW).1, RegisterVerifyAction::Refuse { status: 429, .. }));
}

fn confirm_request(password: &str) -> ResetConfirmEvent {
    ResetConfirmEvent::Request {
        phone: "13800138000".to_string(),
        code: "1234".to_string(),
        new_password: password.to_string(),
    }
}

#[test]
fn reset_confirm_hides_unknown_phones_and_checks_the_policy_first() {
    let (st, _) = reset_confirm_step(ResetConfirmState::Start, confirm_request("correct horse"));
    match reset_confirm_step(st, ResetConfirmEvent::Found { user: None }).1 {
        ResetConfirmAction::Refuse { status, message } => {
            assert_eq!((status, message.as_str()), (400, "验证码已过期，请重新获取。"))
        }
        _ => panic!("expected the expired-code answer"),
    }
    let (st, _) = reset_confirm_step(ResetConfirmState::Start, confirm_request("short"));
    match reset_confirm_step(st, ResetConfirmEvent::Found { user: Some(user()) }).1 {
        ResetConfirmAction::Refuse { status, message } => assert_eq!((status, message.as_str()), (400, "密码至少 8 个字符。")),
        _ => panic!("expected the policy to refuse"),
    }
}

#[test]
fn reset_confirm_sets_the_new_password() {
    let (st, _) = reset_confirm_step(ResetConfirmState::Start, confirm_request("correct horse"));
    let (st, a) = reset_confirm_step(st, ResetConfirmEvent::Found { user: Some(user()) });
    match a {
        ResetConfirmAction::CheckCode { purpose, phone, code } => {
            assert_eq!((purpose, phone.as_str(), code.as_str()), (Purpose::Reset, "13800138000", "1234"))
        }
        _ => panic!("expected a code check"),
    }
    let (st, a) = reset_confirm_step(st, ResetConfirmEvent::CodeAccepted);
    match a {
        ResetConfirmAction::Hash { password, iterations } => {
            assert_eq!((password.as_str(), iterations), ("correct horse", PBKDF2_ITERATIONS))
        }
        _ => panic!("expected a hash"),
    }
    let (st, a) = reset_confirm_step(st, ResetConfirmEvent::Hashed { hash: vec![5], salt: vec![6] });
    assert!(matches!(st, ResetConfirmState::Done));
    match a {
        ResetConfirmAction::SetPassword { user_id, hash, salt, iterations } => {
            assert_eq!(user_id, "u1");
            assert_eq!((hash, salt, iterations), (vec![5], vec![6], PBKDF2_ITERATIONS));
        }
        _ => panic!("expected the password to be set"),
    }
}

#[test]
fn resend_renews_only_a_pending_sign_up() {
    let mut rl = RateLimiter::default();
    let req = || RegisterResendEvent::Request { phone: "13800138000".to_string(), ip: "10.0.0.4".to_string() };
    let (st, a) = register_resend_step(RegisterResendState::Start, req(), &mut rl, PEPPER, NOW, 0, 1000);
    match a {
        RegisterResendAction::LookUp { key } => assert_eq!(key, "register:13800138000"),
        _ => panic!("expected a look-up"),
    }
    let (_, a) = register_resend_step(st, RegisterResendEvent::Looked { exists: false }, &mut rl, PEPPER, NOW, 0, 1000);
    assert!(matches!(a, RegisterResendAction::Respond { .. }));
    let (st, _) = register_resend_step(RegisterResendState::Start, req(), &mut rl, PEPPER, NOW, 0, 1000);
    let (st, a) = register_resend_step(st, RegisterResendEvent::Looked { exists: true }, &mut rl, PEPPER, NOW, 0, 1000);
    assert!(matches!(a, RegisterResendAction::SendCode { .. }));
    let (_, a) = register_resend_step(st, RegisterResendEvent::CodeSent { local_code: None }, &mut rl, PEPPER, NOW, 0, 1000);
    match a {
        RegisterResendAction::RenewPending { key, expires_at, local_code_hmac, phone } => {
            assert_eq!(key, "register:13800138000");
            assert_eq!(expires_at, NOW + PENDING_TTL_SECS);
            assert!(local_code_hmac.is_none());
            assert_eq!(phone, "13800138000");
        }
        _ => panic!("expected the renewal"),
    }
}

use soul_lantern::flows::{change_password_step, ChangePasswordAction, ChangePasswordEvent, ChangePasswordState};

fn change_request(new_password: &str) -> ChangePasswordEvent {
    ChangePasswordEvent::Request {
        user: Some(user()),
        old_password: "old pass".to_string(),
        new_password: new_password.to_string(),
    }
}

#[test]
fn change_password_checks_the_old_one_first() {
    let (st, a) = change_password_step(ChangePasswordState::Start, change_request("short"));
    match a {
        ChangePasswordAction::Verify { password, salt, iterations, expected } => {
            assert_eq!(password, "old pass");
            assert_eq!((salt, iterations, expected), (vec![8; 16], 1000, vec![7; 32]));
        }
        _ => panic!("expected the old password to be checked"),
    }
    match change_password_step(st, ChangePasswordEvent::Verified { ok: false }).1 {
        ChangePasswordAction::Refuse { status, message } => assert_eq!((status, message.as_str()), (401, "原密码不对。")),
        _ => panic!("expected a refusal"),
    }
    let (st, _) = change_password_step(ChangePasswordState::Start, change_request("short"));
    match change_password_step(st, ChangePasswordEvent::Verified { ok: true }).1 {
        ChangePasswordAction::Refuse { status, message } => assert_eq!((status, message.as_str()), (400, "密码至少 8 个字符。")),
        _ => panic!("expected the policy to refuse"),
    }
    let ev = ChangePasswordEvent::Request { user: None, old_password: String::new(), new_password: String::new() };
    assert!(matches!(change_password_step(ChangePasswordState::Start, ev).1, ChangePasswordAction::Refuse { status: 401, .. }));
}

#[test]
fn change_password_stores_the_new_hash() {
    let (st, _) = change_password_step(ChangePasswordState::Start, change_request("correct horse"));
    let (st, a) = change_password_step(st, ChangePasswordEvent::Verified { ok: true });
    assert!(matches!(a, ChangePasswordAction::Hash { iterations: PBKDF2_ITERATIONS, .. }));
    match change_password_step(st, ChangePasswordEvent::Hashed { hash: vec![3], salt: vec![4] }).1 {
        ChangePasswordAction::SetPassword { user_id, hash, salt, iterations } => {
            assert_eq!((user_id.as_str(), hash, salt, iterations), ("u1", vec![3], vec![4], PBKDF2_ITERATIONS))
        }
        _ => panic!("expected the password to be set"),
    }
}
