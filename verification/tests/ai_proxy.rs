use soul_lantern::ai_proxy::{chat_messages, coins_to_charge, reply_content, upstream_status_error, usage_from_counts, AiUsage, ChatTurn};

#[test]
fn coins_to_charge_matches_hand_calculated_qwen_plus_example() {
    let usage = AiUsage { prompt: 19_000, completion: 600, total: 19_600 };
    let coins = coins_to_charge("qwen3.7-plus", Some(&usage));
    assert!((60..=75).contains(&coins), "got {coins}");
}

#[test]
fn coins_to_charge_flash_jumps_tier_past_32k_input() {
    let under = AiUsage { prompt: 31_000, completion: 600, total: 31_600 };
    let over = AiUsage { prompt: 33_000, completion: 600, total: 33_600 };
    let coins_under = coins_to_charge("qwen3.7-flash", Some(&under));
    let coins_over = coins_to_charge("qwen3.7-flash", Some(&over));
    assert!(coins_over > coins_under);
    assert!(coins_over as f64 / coins_under as f64 > 2.5);
}

#[test]
fn coins_to_charge_falls_back_when_usage_missing() {
    assert_eq!(coins_to_charge("qwen3.7-plus", None), 100);
}

#[test]
fn coins_to_charge_never_zero_even_for_tiny_usage() {
    let usage = AiUsage { prompt: 1, completion: 0, total: 1 };
    assert!(coins_to_charge("qwen-long-latest", Some(&usage)) >= 1);
}

#[test]
fn exact_charges_per_model() {
    let u = AiUsage { prompt: 1_000_000, completion: 1_000_000, total: 2_000_000 };
    assert_eq!(coins_to_charge("qwen3.8-max", Some(&u)), 72_000);
    assert_eq!(coins_to_charge("qwen-plus", Some(&u)), 15_000);
    assert_eq!(coins_to_charge("qwen3.7-flash", Some(&u)), 4_500);
    assert_eq!(coins_to_charge("qwen-long", Some(&u)), 3_750);
    assert_eq!(coins_to_charge("deepseek-v4-pro", Some(&u)), 54_000);
    assert_eq!(coins_to_charge("something-else", Some(&u)), 15_000);
    let plus = AiUsage { prompt: 19_000, completion: 600, total: 19_600 };
    assert_eq!(coins_to_charge("qwen3.7-plus", Some(&plus)), 65);
}

#[test]
fn messages_keep_history_between_system_and_user() {
    let history = vec![
        ChatTurn { role: "user".to_string(), content: "a".to_string() },
        ChatTurn { role: "assistant".to_string(), content: "b".to_string() },
    ];
    let m = chat_messages("sys", "now", history);
    let pairs: Vec<(String, String)> = m.into_iter().map(|t| (t.role, t.content)).collect();
    assert_eq!(
        pairs,
        vec![
            ("system".to_string(), "sys".to_string()),
            ("user".to_string(), "a".to_string()),
            ("assistant".to_string(), "b".to_string()),
            ("user".to_string(), "now".to_string()),
        ]
    );
}

#[test]
fn reply_content_and_usage() {
    assert_eq!(reply_content(Some("  ".to_string())).unwrap_err(), "大模型响应为空。");
    assert!(reply_content(None).is_err());
    assert_eq!(reply_content(Some(" {} ".to_string())).unwrap(), " {} ");
    let u = usage_from_counts(Some(5), None, Some(1 << 32 | 7));
    assert_eq!((u.prompt, u.completion, u.total), (5, 0, 7));
    let long = "x".repeat(400);
    let e = upstream_status_error("500 Internal Server Error", &long);
    assert_eq!(e, format!("大模型接口返回 500 Internal Server Error：{}", "x".repeat(300)));
}

#[test]
fn coins_to_charge_rounds_the_exact_cost_up() {
    let usage = AiUsage { prompt: 0, completion: 1000, total: 1000 };
    assert_eq!(coins_to_charge("qwen3.8-max", Some(&usage)), 54);
    let usage = AiUsage { prompt: 0, completion: 1001, total: 1001 };
    assert_eq!(coins_to_charge("qwen3.8-max", Some(&usage)), 55);
}
