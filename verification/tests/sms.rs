use soul_lantern::sms::{
    civil_from_unix, describe_error, format_timestamp, generate_code, interpret_check, interpret_send_error,
    percent_encode, sign, utc_timestamp, ApiReply, Purpose, Sender, CODE_LENGTH,
};

#[test]
fn percent_encoding_follows_aliyun_rules() {
    assert_eq!(percent_encode("abcXYZ019-_.~"), "abcXYZ019-_.~");
    assert_eq!(percent_encode(" "), "%20");
    assert_eq!(percent_encode("*"), "%2A");
    assert_eq!(percent_encode("~"), "~");
    assert_eq!(percent_encode("/"), "%2F");
    assert_eq!(percent_encode("{\"a\":\"b\"}"), "%7B%22a%22%3A%22b%22%7D");
}

#[test]
fn signature_matches_known_vector() {
    let params: Vec<(String, String)> = vec![
        ("AccessKeyId".into(), "testid".into()),
        ("Action".into(), "DescribeRegions".into()),
        ("Format".into(), "XML".into()),
        ("SignatureMethod".into(), "HMAC-SHA1".into()),
        ("SignatureNonce".into(), "3ee8c1b8-83d3-44af-a94f-4e0ad82fd6cf".into()),
        ("SignatureVersion".into(), "1.0".into()),
        ("Timestamp".into(), "2016-02-23T12:46:24Z".into()),
        ("Version".into(), "2014-05-26".into()),
    ];
    let sig = sign("testsecret", "GET", &params);
    assert_eq!(sig, "OLeaidS1JvxuMvnyHOwuJ+uX5qY=");
}

#[test]
fn timestamp_is_iso8601_utc() {
    let ts = utc_timestamp();
    assert_eq!(ts.len(), 20);
    assert!(ts.ends_with('Z'));
    assert_eq!(&ts[4..5], "-");
    assert_eq!(&ts[10..11], "T");
}

#[test]
fn civil_conversion_spot_checks() {
    assert_eq!(civil_from_unix(0), (1970, 1, 1, 0, 0, 0));
    assert_eq!(civil_from_unix(1_456_231_584), (2016, 2, 23, 12, 46, 24));
    assert_eq!(civil_from_unix(951_868_800), (2000, 3, 1, 0, 0, 0));
}

#[test]
fn purposes_use_distinct_templates_and_prefixes() {
    assert_ne!(Purpose::Register.template(), Purpose::Reset.template());
    assert_ne!(Purpose::Register.key_prefix(), Purpose::Reset.key_prefix());
    assert_eq!(Purpose::Register.template(), "100001");
    assert_eq!(Purpose::Reset.template(), "100003");
}

#[test]
fn timestamps_of_fixed_times() {
    assert_eq!(format_timestamp(1_456_231_584), "2016-02-23T12:46:24Z");
    assert_eq!(format_timestamp(0), "1970-01-01T00:00:00Z");
    assert_eq!(format_timestamp(1_709_164_800), "2024-02-29T00:00:00Z");
}

#[test]
fn non_ascii_text_is_encoded_byte_by_byte() {
    assert_eq!(percent_encode("码"), "%E7%A0%81");
}

#[test]
fn log_codes_are_six_digits() {
    let code = generate_code();
    assert_eq!(code.len(), CODE_LENGTH as usize);
    assert!(code.chars().all(|c| c.is_ascii_digit()));
    assert!(Sender::Log.is_log());
}

fn reply(code: Option<&str>, verify: Option<&str>) -> ApiReply {
    ApiReply { code: code.map(str::to_string), message: Some("m".to_string()), verify_result: verify.map(str::to_string) }
}

#[test]
fn send_replies_are_translated() {
    assert!(interpret_send_error(&reply(Some("OK"), None)).is_ok());
    assert_eq!(interpret_send_error(&reply(Some("MOBILE_NUMBER_ILLEGAL"), None)).unwrap_err(), "手机号格式不正确。");
    assert_eq!(interpret_send_error(&reply(Some("FREQUENCY_FAIL"), None)).unwrap_err(), "验证码发送太频繁了，请稍后再试。");
    assert_eq!(interpret_send_error(&reply(Some("FUNCTION_NOT_OPENED"), None)).unwrap_err(), "短信服务暂时不可用，请稍后再试。");
    assert_eq!(interpret_send_error(&reply(None, None)).unwrap_err(), "验证码发送失败，请稍后重试。");
}

#[test]
fn check_replies_are_translated() {
    assert_eq!(interpret_check(&reply(Some("OK"), Some("pass"))), Ok(true));
    assert_eq!(interpret_check(&reply(Some("OK"), Some("UNKNOWN"))), Ok(false));
    assert_eq!(interpret_check(&reply(Some("OK"), None)), Ok(false));
    assert_eq!(interpret_check(&reply(Some("isv.X"), None)).unwrap_err(), "阿里云短信接口返回 isv.X：m");
    assert_eq!(describe_error(&ApiReply { code: None, message: None, verify_result: None }), "阿里云短信接口返回 (无)：(无)");
}
