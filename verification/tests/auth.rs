use soul_lantern::auth::{
    bearer_token_from, check_sms_quota_at, normalize_code, normalize_username_key, pending_gate, pending_key, session_key,
    validate_password, validate_username, PendingVerification, RateLimiter, User, MAX_VERIFY_ATTEMPTS,
};
use soul_lantern::ledger::WELCOME_BALANCE;
use soul_lantern::sms::Purpose;
use soul_lantern::store::Store;

#[test]
fn username_normalization_folds_fullwidth_and_case() {
    assert_eq!(normalize_username_key("ＡＤＭＩＮ"), "admin");
    assert_eq!(normalize_username_key("Admin"), "admin");
    assert_eq!(normalize_username_key("灵魂灯笼"), "灵魂灯笼");
}

#[test]
fn username_validation_allows_chinese_rejects_invisible() {
    assert!(validate_username("小明").is_ok());
    assert!(validate_username("Steve_2026").is_ok());
    assert!(validate_username("a").is_err());
    assert!(validate_username(&"x".repeat(25)).is_err());
    assert!(validate_username("有 空格").is_err());
    assert!(validate_username("admin\u{200B}").is_err());
}

#[test]
fn password_policy() {
    assert!(validate_password("Str0ngPass!", "steve", "13800138000").is_ok());
    assert!(validate_password("short1", "steve", "").is_err());
    assert!(validate_password("12345678", "steve", "").is_err());
    assert!(validate_password("aaaaaaaa", "steve", "").is_err());
    assert!(validate_password("13800138000x", "steve", "13800138000").is_err());
}

#[test]
fn rate_limiter_windows() {
    let mut rl = RateLimiter::default();
    assert!(rl.check("k", 2, 60).is_ok());
    assert!(rl.check("k", 2, 60).is_ok());
    assert!(rl.check("k", 2, 60).is_err());
    rl.refund("k");
    assert!(rl.check("k", 2, 60).is_ok());
}

#[test]
fn rate_limiter_sweep_drops_stale_keys() {
    let mut rl = RateLimiter::default();
    rl.check_at("old", 5, 1, 100).unwrap();
    rl.sweep_at(1, 102);
    assert_eq!(rl.count_at("old", 1, 102), 0);
}

#[test]
fn pending_keys_are_namespaced_by_purpose() {
    let a = pending_key(Purpose::Register, "13800138000");
    let b = pending_key(Purpose::Reset, "13800138000");
    assert_ne!(a, b);
    assert_eq!(a, "register:13800138000");
    assert_eq!(b, "reset:13800138000");
}

#[test]
fn username_messages_name_the_first_problem() {
    assert_eq!(validate_username("a").unwrap_err(), "用户名需要 2~24 个字符。");
    assert_eq!(validate_username("a b").unwrap_err(), "用户名里不能有空格。");
    assert_eq!(validate_username("a\u{7}b").unwrap_err(), "用户名里有不可见的控制字符，请重新输入。");
    assert_eq!(validate_username("a\u{202E}b").unwrap_err(), "用户名里有不可见字符，请重新输入。");
    assert_eq!(validate_username("ab　cd").unwrap_err(), "用户名里不能有空格。");
}

#[test]
fn password_messages() {
    assert_eq!(validate_password("short", "", "").unwrap_err(), "密码至少 8 个字符。");
    assert_eq!(validate_password(&"ab".repeat(65), "", "").unwrap_err(), "密码太长了（最多 128 个字符）。");
    assert_eq!(validate_password("PASSWORD", "", "").unwrap_err(), "这个密码太常见了，换一个不容易被猜到的。");
    assert_eq!(validate_password("zzzzzzzzz", "", "").unwrap_err(), "密码不能是同一个字符重复。");
    assert_eq!(validate_password("SteveTheGreat", "stevethegreat", "").unwrap_err(), "密码不能和用户名一样。");
    assert_eq!(validate_password("0013800", "", "13800138000").unwrap_err(), "密码至少 8 个字符。");
    assert_eq!(validate_password("38001380", "", "13800138000").unwrap_err(), "密码不能包含手机号。");
}

#[test]
fn refund_takes_back_only_the_last_hit() {
    let mut rl = RateLimiter::default();
    rl.check_at("k", 3, 60, 10).unwrap();
    rl.check_at("k", 3, 60, 20).unwrap();
    rl.refund("k");
    assert_eq!(rl.count_at("k", 60, 20), 1);
    rl.refund("absent");
    assert_eq!(rl.count_at("absent", 60, 20), 0);
}

#[test]
fn refused_check_reports_the_wait() {
    let mut rl = RateLimiter::default();
    rl.check_at("k", 1, 60, 100).unwrap();
    assert_eq!(rl.check_at("k", 1, 60, 130), Err(30));
    assert_eq!(rl.check_at("k", 0, 60, 130), Err(30));
    assert!(rl.check_at("k", 1, 60, 160).is_ok());
    assert!(rl.peek_at("k", 2, 60, 160));
}

#[test]
fn sms_quota_cools_down_per_phone_and_refunds_on_refusal() {
    let mut rl = RateLimiter::default();
    assert!(check_sms_quota_at(&mut rl, "13800138000", "1.2.3.4", false, 60, 200, 1000).is_ok());
    assert_eq!(
        check_sms_quota_at(&mut rl, "13800138000", "1.2.3.4", false, 60, 200, 1010).unwrap_err(),
        "验证码刚发过，请 50 秒后再试。"
    );
    let mut tight = RateLimiter::default();
    assert_eq!(
        check_sms_quota_at(&mut tight, "13800138001", "1.2.3.4", false, 60, 1, 1000).unwrap_err(),
        "今天的验证码发送量已达上限，请明天再试。"
    );
    assert_eq!(tight.count_at("sms:phone:13800138001", 60, 1000), 0);
    assert!(check_sms_quota_at(&mut tight, "13800138001", "1.2.3.4", true, 60, 1, 1000).is_ok());
}

#[test]
fn sms_quota_limits_an_ip_per_hour() {
    let mut rl = RateLimiter::default();
    for i in 0..5u64 {
        let phone = format!("1380013800{i}");
        assert!(check_sms_quota_at(&mut rl, &phone, "9.9.9.9", false, 60, 200, 1000).is_ok());
    }
    assert_eq!(
        check_sms_quota_at(&mut rl, "13900139000", "9.9.9.9", false, 60, 200, 1000).unwrap_err(),
        "操作太频繁了，请稍后再试。"
    );
    assert_eq!(rl.count_at("sms:phone:13900139000", 60, 1000), 0);
}

fn user(id: &str, name_key: &str, phone: &str) -> User {
    User {
        id: id.to_string(),
        username: name_key.to_string(),
        username_key: name_key.to_string(),
        phone: phone.to_string(),
        password_hash: vec![1, 2, 3],
        password_salt: vec![4],
        pbkdf2_iterations: 1,
        created_at: 5,
        last_login_at: 5,
    }
}

#[test]
fn registration_grants_the_welcome_balance_once_and_keeps_names_unique() {
    let mut store = Store::in_memory();
    store.finish_registration(user("u1", "steve", "13800138000")).unwrap();
    assert_eq!(store.account("u1").balance, WELCOME_BALANCE);
    assert_eq!(
        store.finish_registration(user("u2", "steve", "13900139000")).unwrap_err(),
        "这个用户名刚刚被别人注册了，换一个吧。"
    );
    assert_eq!(
        store.finish_registration(user("u3", "alex", "13800138000")).unwrap_err(),
        "这个手机号已经注册过了，直接登录或找回密码吧。"
    );
    assert_eq!(store.account("u2").balance, 0);
    assert_eq!(store.find_user_by_phone("13800138000").unwrap().id, "u1");
    assert_eq!(store.find_user_by_account("ＳＴＥＶＥ").unwrap().id, "u1");
    assert_eq!(store.find_user_by_account("+86 138 0013 8000").unwrap().id, "u1");
    assert!(store.find_user_by_account("nobody").is_none());
}

#[test]
fn sessions_expire_and_are_revoked() {
    let mut store = Store::in_memory();
    let (token, expires) = store.issue_session(b"pepper", "u1", 1000);
    assert_eq!(expires, 1000 + 30 * 24 * 3600);
    let key = session_key(b"pepper", &token);
    assert_eq!(store.session_user(&key, 2000).as_deref(), Some("u1"));
    assert!(store.session_user(&key, expires).is_none());
    assert!(store.session_user(&session_key(b"other", &token), 2000).is_none());
    store.revoke_all_sessions("u1").unwrap();
    assert!(store.session_user(&key, 2000).is_none());
}

fn pending(expires_at: u64, attempts: u32) -> PendingVerification {
    PendingVerification {
        kind: "register".to_string(),
        phone: "13800138000".to_string(),
        created_at: 0,
        expires_at,
        attempts,
        username: None,
        username_key: None,
        password_hash: None,
        password_salt: None,
        pbkdf2_iterations: None,
        local_code_hmac: None,
    }
}

#[test]
fn pending_verifications_expire_and_count_attempts() {
    let mut store = Store::in_memory();
    let key = pending_key(Purpose::Register, "13800138000");
    store.put_pending(key.clone(), pending(100, 0), 0).unwrap();
    assert!(pending_gate(store.pending(&key), 50).is_ok());
    assert_eq!(pending_gate(store.pending(&key), 100).unwrap_err().0, 400);
    for _ in 0..MAX_VERIFY_ATTEMPTS {
        store.note_failed_attempt(&key).unwrap();
    }
    assert_eq!(pending_gate(store.pending(&key), 50).unwrap_err(), (429, "验证码错误次数过多，请重新获取。".to_string()));
    store.put_pending("other".to_string(), pending(10, 0), 60).unwrap();
    assert!(store.pending(&key).is_some());
    store.put_pending("third".to_string(), pending(500, 0), 200).unwrap();
    assert!(store.pending(&key).is_none(), "expired entries are dropped on the next write");
    assert!(pending_gate(None, 0).is_err());
    store.remove_pending("third").unwrap();
    assert!(store.pending("third").is_none());
}

#[test]
fn typed_codes_keep_only_digits() {
    assert_eq!(normalize_code(" 12-34 56 "), "123456");
}

#[test]
fn bearer_tokens_are_trimmed_and_required() {
    assert_eq!(bearer_token_from("Bearer  abc ").as_deref(), Some("abc"));
    assert_eq!(bearer_token_from("Bearer    "), None);
    assert_eq!(bearer_token_from("Basic abc"), None);
}

#[test]
fn a_refund_lowers_the_count_by_one() {
    let mut rl = RateLimiter::default();
    rl.check_at("k", 5, 60, 100).unwrap();
    rl.check_at("k", 5, 60, 101).unwrap();
    assert_eq!(rl.count_at("k", 60, 102), 2);
    rl.refund("k");
    assert_eq!(rl.count_at("k", 60, 102), 1);
    rl.refund("none");
    assert_eq!(rl.count_at("none", 60, 102), 0);
}
