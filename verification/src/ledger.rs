//! Balances and licence activation, per account.
//!
//! Accounts are keyed by `account_key(user_id)` and nothing else. No operation here ever
//! creates an account out of a read: an unknown user reads as an all-zero account and the
//! table is left as it was. The welcome balance is granted once, when a registration
//! completes (see `auth::finish_registration`).

use vstd::prelude::*;
use crate::crypto::{canonical_license, canonical_license_spec, license_valid, verify_license};
use crate::store::{Persisted, Store};
use crate::text::{eq_ignore_ascii_case, eq_ignore_case, push_str, string_from};

verus! {

/// Coins granted once when a registration completes.
pub const WELCOME_BALANCE: i64 = 2000;

/// Coins added by a licence activation.
pub const ACTIVATE_BONUS: i64 = 100;

/// Top-up tiers: (price in whole yuan, coins). The server is authoritative.
pub const TOPUP_TIERS: [(u32, i64); 8] = [
    (1, 1000),
    (5, 5100),
    (10, 12000),
    (30, 33333),
    (66, 70000),
    (128, 166666),
    (288, 333333),
    (648, 888888),
];

/// `coins` is the coin amount of one of the top-up tiers.
pub open spec fn is_topup_tier(coins: int) -> bool {
    ||| coins == 1000
    ||| coins == 5100
    ||| coins == 12000
    ||| coins == 33333
    ||| coins == 70000
    ||| coins == 166666
    ||| coins == 333333
    ||| coins == 888888
}

/// One account's balance, activation flag and the licence codes it has redeemed.
#[derive(Clone, Debug, Default)]
pub struct Account {
    pub balance: i64,
    pub activated: bool,
    pub redeemed_keys: Vec<String>,
}

/// An account as a value: balance, activation flag, redeemed codes.
pub struct AccountView {
    pub balance: int,
    pub activated: bool,
    pub redeemed: Seq<Seq<char>>,
}

impl View for Account {
    type V = AccountView;

    open spec fn view(&self) -> AccountView {
        AccountView {
            balance: self.balance as int,
            activated: self.activated,
            redeemed: self.redeemed_keys@.map_values(|k: String| k@),
        }
    }
}

/// The all-zero account an unknown user reads as.
pub open spec fn empty_account() -> AccountView {
    AccountView { balance: 0, activated: false, redeemed: Seq::empty() }
}

impl Account {
    /// A zero balance, not activated, nothing redeemed.
    pub fn empty() -> (a: Account)
        ensures
            a@ == empty_account(),
    {
        let a = Account { balance: 0, activated: false, redeemed_keys: Vec::new() };
        assert(a@.redeemed =~= Seq::<Seq<char>>::empty());
        a
    }

    /// A field-by-field copy.
    pub fn duplicate(&self) -> (a: Account)
        ensures
            a@ == self@,
    {
        let mut keys: Vec<String> = Vec::new();
        let mut i: usize = 0;
        while i < self.redeemed_keys.len()
            invariant
                i <= self.redeemed_keys@.len(),
                keys@ == self.redeemed_keys@.subrange(0, i as int),
            decreases self.redeemed_keys@.len() - i,
        {
            keys.push(self.redeemed_keys[i].clone());
            i = i + 1;
            assert(keys@ =~= self.redeemed_keys@.subrange(0, i as int));
        }
        assert(self.redeemed_keys@.subrange(0, self.redeemed_keys@.len() as int) =~= self.redeemed_keys@);
        Account { balance: self.balance, activated: self.activated, redeemed_keys: keys }
    }
}

/// The accounts table key of a user: `"u:" + user_id`.
pub open spec fn account_key_spec(user_id: Seq<char>) -> Seq<char> {
    seq!['u', ':'] + user_id
}

/// The accounts table key of a user. This is the only place the `u:` prefix is written,
/// so no string from a request can be used as an account key directly.
pub fn account_key(user_id: &str) -> (k: String)
    ensures
        k@ == account_key_spec(user_id@),
{
    let mut k = string_from("u:");
    push_str(&mut k, user_id);
    proof {
        reveal_strlit("u:");
        assert(k@ =~= account_key_spec(user_id@));
    }
    k
}

/// The accounts of a state, as values.
pub open spec fn accounts_of(p: Persisted) -> Map<Seq<char>, AccountView> {
    p.accounts.view().map_values(|a: Account| a@)
}

/// What `user_id` reads as: its account, or the all-zero account.
pub open spec fn account_or_empty(p: Persisted, user_id: Seq<char>) -> AccountView {
    let k = account_key_spec(user_id);
    if p.accounts.view().dom().contains(k) {
        p.accounts.view()[k]@
    } else {
        empty_account()
    }
}

/// `a` after consuming `coins`: negative amounts consume nothing and the balance stops at zero.
pub open spec fn consumed(a: AccountView, coins: int) -> AccountView {
    let c = if coins > 0 { coins } else { 0 };
    let b = a.balance - c;
    AccountView { balance: if b > 0 { b } else { 0 }, ..a }
}

/// `a` after adding `coins`: negative amounts add nothing.
pub open spec fn credited(a: AccountView, coins: int) -> AccountView {
    AccountView { balance: a.balance + (if coins > 0 { coins } else { 0 }), ..a }
}

/// `a` after redeeming the canonical code `code`.
pub open spec fn activated(a: AccountView, code: Seq<char>) -> AccountView {
    AccountView { balance: a.balance + ACTIVATE_BONUS, activated: true, redeemed: a.redeemed.push(code) }
}

/// Some account of `p` has redeemed `code`, up to ASCII case.
pub open spec fn code_redeemed(p: Persisted, code: Seq<char>) -> bool {
    exists|k: Seq<char>, j: int|
        #![trigger accounts_of(p)[k].redeemed[j]]
        accounts_of(p).dom().contains(k) && 0 <= j < accounts_of(p)[k].redeemed.len() && eq_ignore_case(
            accounts_of(p)[k].redeemed[j],
            code,
        )
}

/// `q` is `p` with only the account of `user_id` replaced by `a`.
pub open spec fn with_account(p: Persisted, q: Persisted, user_id: Seq<char>, a: AccountView) -> bool {
    &&& accounts_of(q) == accounts_of(p).insert(account_key_spec(user_id), a)
    &&& q.users == p.users
    &&& q.sessions == p.sessions
    &&& q.pending == p.pending
    &&& q.schema_version == p.schema_version
}

/// The error text for an amount that is not a top-up tier.
pub open spec fn not_a_tier_message() -> Seq<char> {
    "不是预设的充值档位。"@
}

/// The error text for a licence code that does not verify.
pub open spec fn invalid_license_message() -> Seq<char> {
    "激活码无效（示例：SOUL-AB2C-D3EF-GH4J）。"@
}

/// The error text for a credit the balance has no room for.
pub open spec fn balance_full_message() -> Seq<char> {
    "余额已达上限，无法再增加。"@
}

/// The error text for a licence code that some account has already redeemed.
pub open spec fn used_license_message() -> Seq<char> {
    "这个激活码已经被使用过了。"@
}

proof fn lemma_accounts_insert(p: Persisted, q: Persisted, k: Seq<char>, a: Account)
    requires
        q.accounts.view() == p.accounts.view().insert(k, a),
    ensures
        accounts_of(q) == accounts_of(p).insert(k, a@),
{
    assert(accounts_of(q) =~= accounts_of(p).insert(k, a@));
}

/// The balance and flags of `user_id`, found by `account_key`. A read never creates an
/// account: an unknown user reads as all zero and the table is left as it was.
pub fn account_in(p: &Persisted, user_id: &str) -> (a: Account)
    requires
        p.wf(),
    ensures
        a@ == account_or_empty(*p, user_id@),
{
    let key = account_key(user_id);
    match p.accounts.get(key.as_str()) {
        Some(acc) => acc.duplicate(),
        None => Account::empty(),
    }
}

/// Applies `change` to the stored account of `user_id`, creating an empty one first when
/// there is none, and returns the stored result.
fn put_account(p: &mut Persisted, user_id: &str, acc: Account) -> (r: Account)
    requires
        old(p).wf(),
        acc.balance >= 0,
    ensures
        final(p).wf(),
        r@ == acc@,
        with_account(*old(p), *final(p), user_id@, acc@),
{
    let key = account_key(user_id);
    let r = acc.duplicate();
    let ghost before = *p;
    p.accounts.insert(key, acc);
    proof {
        lemma_accounts_insert(before, *p, account_key_spec(user_id@), acc);
        assert forall|k: Seq<char>| #[trigger] p.accounts.view().dom().contains(k) implies p.accounts.view()[k].balance
            >= 0 by {
            if k != account_key_spec(user_id@) {
                assert(before.accounts.view().dom().contains(k));
            }
        }
    }
    r
}

impl Store {
    /// Reads an account. Never creates one and never mints coins: an unknown user reads as
    /// a zero balance, not activated.
    pub fn account(&self, user_id: &str) -> (a: Account)
        requires
            self.wf(),
        ensures
            a@ == account_or_empty(self.state(), user_id@),
    {
        account_in(self.snapshot(), user_id)
    }

    /// Charges `coins` (negative amounts charge nothing). The balance never drops below zero.
    /// A user without an account is charged nothing and no account is created: the table is
    /// left as it was.
    pub fn consume(&mut self, user_id: &str, coins: i64) -> (r: Result<Account, String>)
        requires
            old(self).wf(),
        ensures
            final(self).wf(),
            final(self).health() == old(self).health(),
            r is Ok,
            r->Ok_0@ == consumed(account_or_empty(old(self).state(), user_id@), coins as int),
            accounts_of(old(self).state()).dom().contains(account_key_spec(user_id@)) ==> with_account(
                old(self).state(),
                final(self).state(),
                user_id@,
                r->Ok_0@,
            ),
            !accounts_of(old(self).state()).dom().contains(account_key_spec(user_id@)) ==> final(self).state()
                == old(self).state(),
    {
        let key = account_key(user_id);
        if !self.snapshot().accounts.contains_key(key.as_str()) {
            let a = Account::empty();
            proof {
                assert(a@.redeemed =~= consumed(empty_account(), coins as int).redeemed);
            }
            return Ok(a);
        }
        let st = self.state_mut();
        let mut acc = account_in(st, user_id);
        let c: i64 = if coins > 0 { coins } else { 0 };
        let b: i64 = acc.balance - c;
        acc.balance = if b > 0 { b } else { 0 };
        Ok(put_account(st, user_id, acc))
    }

    /// Adds `coins` (negative amounts add nothing). Used for the welcome grant, top-ups and
    /// activations.
    pub fn add_coins(&mut self, user_id: &str, coins: i64) -> (r: Result<Account, String>)
        requires
            old(self).wf(),
            account_or_empty(old(self).state(), user_id@).balance + (if coins > 0 { coins as int } else { 0 })
                <= i64::MAX,
        ensures
            final(self).wf(),
            final(self).health() == old(self).health(),
            r is Ok,
            r->Ok_0@ == credited(account_or_empty(old(self).state(), user_id@), coins as int),
            with_account(old(self).state(), final(self).state(), user_id@, r->Ok_0@),
    {
        let st = self.state_mut();
        let mut acc = account_in(st, user_id);
        let c: i64 = if coins > 0 { coins } else { 0 };
        acc.balance = acc.balance + c;
        Ok(put_account(st, user_id, acc))
    }

    /// A top-up: only the preset tier amounts are accepted, and only while the balance has
    /// room for them.
    pub fn topup(&mut self, user_id: &str, coins: i64) -> (r: Result<Account, String>)
        requires
            old(self).wf(),
        ensures
            final(self).wf(),
            final(self).health() == old(self).health(),
            is_topup_tier(coins as int) && account_or_empty(old(self).state(), user_id@).balance + coins <= i64::MAX
                ==> r is Ok && r->Ok_0@ == credited(account_or_empty(old(self).state(), user_id@), coins as int)
                && with_account(old(self).state(), final(self).state(), user_id@, r->Ok_0@),
            is_topup_tier(coins as int) && account_or_empty(old(self).state(), user_id@).balance + coins > i64::MAX
                ==> r is Err && r->Err_0@ == balance_full_message() && final(self).state() == old(self).state(),
            !is_topup_tier(coins as int) ==> r is Err && r->Err_0@ == not_a_tier_message()
                && final(self).state() == old(self).state(),
    {
        let mut i: usize = 0;
        let mut found = false;
        while i < 8
            invariant
                i <= 8,
                found == (exists|j: int| 0 <= j < i && TOPUP_TIERS[j].1 == coins),
            decreases 8 - i,
        {
            if TOPUP_TIERS[i].1 == coins {
                found = true;
            }
            i = i + 1;
        }
        proof {
            if is_topup_tier(coins as int) {
                if coins == 1000 { assert(TOPUP_TIERS[0].1 == coins); }
                if coins == 5100 { assert(TOPUP_TIERS[1].1 == coins); }
                if coins == 12000 { assert(TOPUP_TIERS[2].1 == coins); }
                if coins == 33333 { assert(TOPUP_TIERS[3].1 == coins); }
                if coins == 70000 { assert(TOPUP_TIERS[4].1 == coins); }
                if coins == 166666 { assert(TOPUP_TIERS[5].1 == coins); }
                if coins == 333333 { assert(TOPUP_TIERS[6].1 == coins); }
                if coins == 888888 { assert(TOPUP_TIERS[7].1 == coins); }
            }
        }
        if !found {
            let e = string_from("不是预设的充值档位。");
            return Err(e);
        }
        let current = account_in(self.snapshot(), user_id);
        if current.balance > i64::MAX - coins {
            let e = string_from("余额已达上限，无法再增加。");
            return Err(e);
        }
        self.add_coins(user_id, coins)
    }

    /// Redeems a licence code for `user_id`. Two gates: the code must verify under
    /// `pepper` (`verify_license`), and no account may have redeemed it before, in any case.
    /// On success the account is flagged activated, gains `ACTIVATE_BONUS` coins and records
    /// the canonical form of the code.
    pub fn activate(&mut self, user_id: &str, license_key: &str, pepper: &[u8]) -> (r: Result<Account, String>)
        requires
            old(self).wf(),
        ensures
            final(self).wf(),
            final(self).health() == old(self).health(),
            !license_valid(pepper@, license_key@) ==> r is Err && r->Err_0@ == invalid_license_message()
                && final(self).state() == old(self).state(),
            license_valid(pepper@, license_key@) && code_redeemed(
                old(self).state(),
                canonical_license_spec(license_key@),
            ) ==> r is Err && r->Err_0@ == used_license_message() && final(self).state() == old(
                self,
            ).state(),
            license_valid(pepper@, license_key@) && !code_redeemed(
                old(self).state(),
                canonical_license_spec(license_key@),
            ) && account_or_empty(old(self).state(), user_id@).balance + ACTIVATE_BONUS > i64::MAX ==> r is Err
                && r->Err_0@ == balance_full_message() && final(self).state() == old(self).state(),
            license_valid(pepper@, license_key@) && !code_redeemed(
                old(self).state(),
                canonical_license_spec(license_key@),
            ) && account_or_empty(old(self).state(), user_id@).balance + ACTIVATE_BONUS <= i64::MAX ==> r is Ok
                && r->Ok_0@ == activated(
                account_or_empty(old(self).state(), user_id@),
                canonical_license_spec(license_key@),
            ) && with_account(old(self).state(), final(self).state(), user_id@, r->Ok_0@),
    {
        if !verify_license(pepper, license_key) {
            let e = string_from("激活码无效（示例：SOUL-AB2C-D3EF-GH4J）。");
            return Err(e);
        }
        let canonical = canonical_license(license_key);
        let used = redeemed_anywhere(self.snapshot(), canonical.as_str());
        if used {
            let e = string_from("这个激活码已经被使用过了。");
            return Err(e);
        }
        let current = account_in(self.snapshot(), user_id);
        if current.balance > i64::MAX - ACTIVATE_BONUS {
            let e = string_from("余额已达上限，无法再增加。");
            return Err(e);
        }
        let st = self.state_mut();
        let mut acc = account_in(st, user_id);
        acc.activated = true;
        acc.balance = acc.balance + ACTIVATE_BONUS;
        let ghost before = acc@;
        acc.redeemed_keys.push(canonical);
        assert(acc@.redeemed =~= before.redeemed.push(canonical_license_spec(license_key@)));
        Ok(put_account(st, user_id, acc))
    }
}

/// Some account of `p` has redeemed `code`, up to ASCII case.
fn redeemed_anywhere(p: &Persisted, code: &str) -> (b: bool)
    requires
        p.wf(),
    ensures
        b == code_redeemed(*p, code@),
{
    let n = p.accounts.len();
    let mut i: usize = 0;
    while i < n
        invariant
            p.wf(),
            n == p.accounts.rows().len(),
            i <= n,
            forall|r: int, j: int|
                0 <= r < i && 0 <= j < p.accounts.value_at(r)@.redeemed.len() ==> !eq_ignore_case(
                    #[trigger] p.accounts.value_at(r)@.redeemed[j],
                    code@,
                ),
        decreases n - i,
    {
        let acc = p.accounts.value(i);
        let mut j: usize = 0;
        while j < acc.redeemed_keys.len()
            invariant
                p.wf(),
                i < n,
                n == p.accounts.rows().len(),
                *acc == p.accounts.value_at(i as int),
                j <= acc.redeemed_keys@.len(),
                forall|t: int| 0 <= t < j ==> !eq_ignore_case(#[trigger] acc@.redeemed[t], code@),
            decreases acc.redeemed_keys@.len() - j,
        {
            if eq_ignore_ascii_case(acc.redeemed_keys[j].as_str(), code) {
                proof {
                    let k = p.accounts.key_at(i as int);
                    p.accounts.lemma_row(i as int);
                    assert(accounts_of(*p)[k] == acc@);
                    assert(accounts_of(*p)[k].redeemed[j as int] == acc@.redeemed[j as int]);
                }
                return true;
            }
            j = j + 1;
        }
        i = i + 1;
    }
    proof {
        if code_redeemed(*p, code@) {
            let (k, j) = choose|k: Seq<char>, j: int|
                #![trigger accounts_of(*p)[k].redeemed[j]]
                accounts_of(*p).dom().contains(k) && 0 <= j < accounts_of(*p)[k].redeemed.len()
                    && eq_ignore_case(accounts_of(*p)[k].redeemed[j], code@);
            let r = p.accounts.row_of(k);
            p.accounts.lemma_row(r);
            assert(p.accounts.value_at(r)@.redeemed[j] == accounts_of(*p)[k].redeemed[j]);
        }
    }
    false
}

/// A charge never takes a balance below zero, and never raises it.
pub proof fn lemma_consume_floors_at_zero(a: AccountView, coins: int)
    requires
        a.balance >= 0,
    ensures
        0 <= consumed(a, coins).balance <= a.balance,
        coins >= a.balance ==> consumed(a, coins).balance == 0,
{
}

/// Once an activation has succeeded, its code counts as redeemed in the resulting state,
/// so a later activation of the same code, by any user and in any case, is refused.
pub proof fn lemma_activation_spends_code(p: Persisted, q: Persisted, user_id: Seq<char>, code: Seq<char>)
    requires
        with_account(p, q, user_id, activated(account_or_empty(p, user_id), code)),
    ensures
        code_redeemed(q, code),
{
    let k = account_key_spec(user_id);
    let a = accounts_of(q)[k];
    let j = a.redeemed.len() - 1;
    assert(accounts_of(q).dom().contains(k));
    assert(a.redeemed[j] == code);
    assert(eq_ignore_case(code, code));
    assert(eq_ignore_case(accounts_of(q)[k].redeemed[j], code));
}

/// Charges, credits and top-ups keep every redeemed code redeemed: a change of balance
/// never frees a licence code for reuse.
pub proof fn lemma_balance_change_keeps_codes(p: Persisted, q: Persisted, user_id: Seq<char>, a: AccountView, code: Seq<char>)
    requires
        with_account(p, q, user_id, a),
        a.redeemed == account_or_empty(p, user_id).redeemed,
        code_redeemed(p, code),
    ensures
        code_redeemed(q, code),
{
    let (k, j) = choose|k: Seq<char>, j: int|
        #![trigger accounts_of(p)[k].redeemed[j]]
        accounts_of(p).dom().contains(k) && 0 <= j < accounts_of(p)[k].redeemed.len() && eq_ignore_case(
            accounts_of(p)[k].redeemed[j],
            code,
        );
    let uk = account_key_spec(user_id);
    if k == uk {
        assert(accounts_of(q)[k].redeemed[j] == accounts_of(p)[k].redeemed[j]);
    } else {
        assert(accounts_of(q)[k] == accounts_of(p)[k]);
    }
    assert(accounts_of(q).dom().contains(k));
    assert(eq_ignore_case(accounts_of(q)[k].redeemed[j], code));
}

} // verus!
