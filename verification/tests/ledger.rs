use soul_lantern::crypto::generate_license;
use soul_lantern::ledger::{account_key, ACTIVATE_BONUS, TOPUP_TIERS};
use soul_lantern::store::Store;

const PEPPER: &[u8] = b"test-pepper";

#[test]
fn unknown_user_reads_as_zero_and_does_not_mint() {
    let store = Store::in_memory();
    let acc = store.account("从没见过的人");
    assert_eq!(acc.balance, 0);
    assert!(!acc.activated);
    assert!(store.read(|st| st.accounts.is_empty()));
}

#[test]
fn consume_floors_at_zero() {
    let mut store = Store::in_memory();
    store.add_coins("alice", 5000).unwrap();
    assert_eq!(store.consume("alice", 4000).unwrap().balance, 1000);
    assert_eq!(store.consume("alice", 999_999).unwrap().balance, 0);
}

#[test]
fn activate_adds_bonus_not_overwrites() {
    let mut store = Store::in_memory();
    store.add_coins("alice", 5000).unwrap();
    let key = generate_license(PEPPER);
    let acc = store.activate("alice", &key, PEPPER).unwrap();
    assert_eq!(acc.balance, 5000 + ACTIVATE_BONUS);
    assert!(acc.activated);
}

#[test]
fn same_license_cannot_be_used_twice_across_accounts() {
    let mut store = Store::in_memory();
    let key = generate_license(PEPPER);
    store.activate("alice", &key, PEPPER).unwrap();
    assert!(store.activate("bob", &key, PEPPER).is_err());
}

#[test]
fn forged_license_is_rejected_without_touching_balance() {
    let mut store = Store::in_memory();
    store.add_coins("alice", 100).unwrap();
    assert!(store.activate("alice", "SOUL-AAAA-AAAA-AAAB", PEPPER).is_err());
    assert_eq!(store.account("alice").balance, 100);
}

#[test]
fn topup_accepts_only_preset_tiers() {
    let mut store = Store::in_memory();
    assert!(store.topup("alice", 999).is_err());
    assert_eq!(store.topup("alice", 1000).unwrap().balance, 1000);
}

#[test]
fn account_key_is_namespaced() {
    assert_eq!(account_key("abc"), "u:abc");
}

#[test]
fn reused_code_is_refused_in_another_case_and_layout() {
    let mut store = Store::in_memory();
    let key = generate_license(PEPPER);
    store.activate("alice", &key, PEPPER).unwrap();
    let noisy = key.to_lowercase().replace('-', " ");
    let err = store.activate("bob", &noisy, PEPPER).unwrap_err();
    assert_eq!(err, "这个激活码已经被使用过了。");
    assert_eq!(store.account("bob").balance, 0);
    assert_eq!(store.account("alice").redeemed_keys, vec![key]);
}

#[test]
fn negative_amounts_change_nothing() {
    let mut store = Store::in_memory();
    store.add_coins("alice", 10).unwrap();
    assert_eq!(store.add_coins("alice", -5).unwrap().balance, 10);
    assert_eq!(store.consume("alice", -5).unwrap().balance, 10);
}

#[test]
fn every_tier_is_accepted() {
    let mut store = Store::in_memory();
    let mut total = 0;
    for (_, coins) in TOPUP_TIERS {
        total += coins;
        assert_eq!(store.topup("carol", coins).unwrap().balance, total);
    }
    assert_eq!(store.topup("carol", 0).unwrap_err(), "不是预设的充值档位。");
}

#[test]
fn invalid_code_message() {
    let mut store = Store::in_memory();
    assert_eq!(store.activate("a", "nonsense", PEPPER).unwrap_err(), "激活码无效（示例：SOUL-AB2C-D3EF-GH4J）。");
}

#[test]
fn charging_an_unknown_user_creates_no_account() {
    let mut store = Store::in_memory();
    let acc = store.consume("ghost", 500).unwrap();
    assert_eq!(acc.balance, 0);
    assert!(!store.read(|st| st.accounts.contains_key(&account_key("ghost"))));
    assert!(store.read(|st| st.accounts.is_empty()));
}

#[test]
fn credits_without_room_are_refused_and_change_nothing() {
    let mut store = Store::in_memory();
    store.add_coins("rich", i64::MAX - 50).unwrap();
    assert_eq!(store.topup("rich", 1000).unwrap_err(), "余额已达上限，无法再增加。");
    assert_eq!(store.topup("rich", 999).unwrap_err(), "不是预设的充值档位。");
    let key = generate_license(PEPPER);
    assert_eq!(store.activate("rich", &key, PEPPER).unwrap_err(), "余额已达上限，无法再增加。");
    assert_eq!(store.account("rich").balance, i64::MAX - 50);
    assert!(store.activate("poor", &key, PEPPER).is_ok());
    store.add_coins("rich2", i64::MAX - 50).unwrap();
    assert_eq!(store.activate("rich2", &key, PEPPER).unwrap_err(), "这个激活码已经被使用过了。");
}
