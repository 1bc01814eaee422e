//! The ledger's in-memory state: four keyed tables (accounts, users, sessions, pending
//! verifications) and the health of the last write to disk.
//!
//! Durability lives with the caller that owns the file: it takes the lock, runs one of the
//! `Store` operations, serialises the state, writes it atomically, and restores the state it
//! held before the operation when that write fails. Everything here is the logic of the
//! tables themselves, so it is the same in memory and on disk.

use vstd::prelude::*;
use crate::auth::{PendingVerification, Session, User};
use crate::ledger::Account;
use crate::text::str_eq;

verus! {

/// On-disk format version of the ledger file.
pub const SCHEMA_VERSION: u32 = 2;

/// Seconds since the Unix epoch from the system clock (`SystemTime::now`), or 0 when the
/// clock reads before the epoch. Nothing is claimed of the value: it is the machine's time.
#[verifier::external_body]
pub fn now_secs() -> u64 {
    std::time::SystemTime::now()
        .duration_since(std::time::UNIX_EPOCH)
        .map(|d| d.as_secs())
        .unwrap_or(0)
}

/// Nanoseconds since the Unix epoch from the system clock (`SystemTime::now`), or 0 when the
/// clock reads before the epoch. Nothing is claimed of the value: it is the machine's time.
#[verifier::external_body]
pub fn now_nanos() -> u128 {
    std::time::SystemTime::now()
        .duration_since(std::time::UNIX_EPOCH)
        .map(|d| d.as_nanos())
        .unwrap_or(0)
}

/// A table of values keyed by strings, each key present at most once.
pub struct Table<V> {
    entries: Vec<(String, V)>,
}

impl<V> Table<V> {
    /// The rows in insertion order.
    pub closed spec fn rows(&self) -> Seq<(String, V)> {
        self.entries@
    }

    /// The key of row `i`.
    pub open spec fn key_at(&self, i: int) -> Seq<char> {
        self.rows()[i].0@
    }

    /// The value of row `i`.
    pub open spec fn value_at(&self, i: int) -> V {
        self.rows()[i].1
    }

    /// No key occurs in two rows.
    pub open spec fn wf(&self) -> bool {
        forall|i: int, j: int|
            0 <= i < j < self.rows().len() ==> #[trigger] self.key_at(i) != #[trigger] self.key_at(j)
    }

    /// Some row has key `k`.
    pub open spec fn has(&self, k: Seq<char>) -> bool {
        exists|i: int| 0 <= i < self.rows().len() && #[trigger] self.key_at(i) == k
    }

    /// The row that holds key `k` (meaningful when `has(k)`).
    pub open spec fn row_of(&self, k: Seq<char>) -> int {
        choose|i: int| 0 <= i < self.rows().len() && #[trigger] self.key_at(i) == k
    }

    /// The table as a map from keys to values.
    pub open spec fn view(&self) -> Map<Seq<char>, V> {
        Map::new(|k: Seq<char>| self.has(k), |k: Seq<char>| self.value_at(self.row_of(k)))
    }

    /// In a well-formed table, row `i` is what the map holds for its key.
    pub proof fn lemma_row(&self, i: int)
        requires
            self.wf(),
            0 <= i < self.rows().len(),
        ensures
            self.view().dom().contains(self.key_at(i)),
            self.row_of(self.key_at(i)) == i,
            self.view()[self.key_at(i)] == self.value_at(i),
    {
        assert(self.has(self.key_at(i)));
    }

    /// An empty table.
    pub fn new() -> (t: Self)
        ensures
            t.wf(),
            t.view() == Map::<Seq<char>, V>::empty(),
            t.rows().len() == 0,
    {
        let t = Table { entries: Vec::new() };
        assert(t.view() =~= Map::<Seq<char>, V>::empty());
        t
    }

    /// Number of rows.
    pub fn len(&self) -> (n: usize)
        ensures
            n == self.rows().len(),
    {
        self.entries.len()
    }

    /// The table holds no row.
    pub fn is_empty(&self) -> (b: bool)
        requires
            self.wf(),
        ensures
            b == (self.view().dom().len() == 0),
            b == (self.rows().len() == 0),
    {
        proof {
            self.lemma_dom_len();
        }
        self.entries.len() == 0
    }

    /// The key of row `i`.
    pub fn key(&self, i: usize) -> (k: &String)
        requires
            i < self.rows().len(),
        ensures
            k@ == self.key_at(i as int),
    {
        &self.entries[i].0
    }

    /// The value of row `i`.
    pub fn value(&self, i: usize) -> (v: &V)
        requires
            i < self.rows().len(),
        ensures
            *v == self.value_at(i as int),
    {
        &self.entries[i].1
    }

    /// The row holding `key`, if any.
    pub fn find(&self, key: &str) -> (r: Option<usize>)
        requires
            self.wf(),
        ensures
            match r {
                Some(i) => i < self.rows().len() && self.key_at(i as int) == key@
                    && self.view().dom().contains(key@) && self.view()[key@] == self.value_at(i as int),
                None => !self.view().dom().contains(key@),
            },
    {
        let mut i: usize = 0;
        while i < self.entries.len()
            invariant
                self.wf(),
                i <= self.rows().len(),
                forall|j: int| 0 <= j < i ==> self.key_at(j) != key@,
            decreases self.rows().len() - i,
        {
            if str_eq(self.entries[i].0.as_str(), key) {
                proof {
                    self.lemma_row(i as int);
                }
                return Some(i);
            }
            i = i + 1;
        }
        None
    }

    /// The value stored under `key`, if any.
    pub fn get(&self, key: &str) -> (r: Option<&V>)
        requires
            self.wf(),
        ensures
            match r {
                Some(v) => self.view().dom().contains(key@) && *v == self.view()[key@],
                None => !self.view().dom().contains(key@),
            },
    {
        match self.find(key) {
            Some(i) => Some(&self.entries[i].1),
            None => None,
        }
    }

    /// `key` has a row.
    pub fn contains_key(&self, key: &str) -> (b: bool)
        requires
            self.wf(),
        ensures
            b == self.view().dom().contains(key@),
    {
        self.find(key).is_some()
    }

    /// Replaces the value of row `i`, keeping its key.
    pub fn set_value(&mut self, i: usize, v: V)
        requires
            old(self).wf(),
            i < old(self).rows().len(),
        ensures
            final(self).wf(),
            final(self).rows().len() == old(self).rows().len(),
            forall|j: int| 0 <= j < final(self).rows().len() ==> final(self).key_at(j) == old(self).key_at(j),
            forall|j: int| 0 <= j < final(self).rows().len() && j != i ==> final(self).value_at(j) == old(self).value_at(j),
            final(self).value_at(i as int) == v,
            final(self).view() == old(self).view().insert(old(self).key_at(i as int), v),
    {
        let ghost before = *self;
        let k = self.entries[i].0.clone();
        proof {
            before.lemma_row(i as int);
        }
        self.entries.set(i, (k, v));
        proof {
            assert forall|a: int, b: int| 0 <= a < b < self.rows().len() implies #[trigger] self.key_at(a)
                != #[trigger] self.key_at(b) by {
                assert(self.key_at(a) == before.key_at(a));
                assert(self.key_at(b) == before.key_at(b));
            }
            self.lemma_same_keys_view(before, i as int, v);
        }
    }

    proof fn lemma_same_keys_view(&self, before: Self, i: int, v: V)
        requires
            before.wf(),
            self.wf(),
            0 <= i < before.rows().len(),
            self.rows().len() == before.rows().len(),
            forall|j: int| 0 <= j < self.rows().len() ==> self.key_at(j) == before.key_at(j),
            forall|j: int| 0 <= j < self.rows().len() && j != i ==> self.value_at(j) == before.value_at(j),
            self.value_at(i) == v,
        ensures
            self.view() == before.view().insert(before.key_at(i), v),
    {
        let m = before.view().insert(before.key_at(i), v);
        assert forall|k: Seq<char>| self.view().dom().contains(k) == m.dom().contains(k) by {
            if self.has(k) {
                let j = self.row_of(k);
                assert(before.key_at(j) == k);
            }
            if before.has(k) {
                let j = before.row_of(k);
                assert(self.key_at(j) == k);
            }
        }
        assert forall|k: Seq<char>| #[trigger] self.view().dom().contains(k) implies self.view()[k] == m[k] by {
            let j = self.row_of(k);
            self.lemma_row(j);
            before.lemma_row(j);
            assert(before.key_at(j) == k);
        }
        assert(self.view() =~= m);
    }

    /// Puts `v` in row `i` and hands back the value it replaces.
    pub fn swap_value(&mut self, i: usize, v: V) -> (prev: V)
        requires
            old(self).wf(),
            i < old(self).rows().len(),
        ensures
            final(self).wf(),
            prev == old(self).value_at(i as int),
            final(self).rows().len() == old(self).rows().len(),
            forall|j: int| 0 <= j < final(self).rows().len() ==> final(self).key_at(j) == old(self).key_at(j),
            final(self).view() == old(self).view().insert(old(self).key_at(i as int), v),
    {
        let ghost before = *self;
        let (k, prev) = self.entries.remove(i);
        self.entries.insert(i, (k, v));
        proof {
            assert(self.rows() =~= before.rows().update(i as int, (before.rows()[i as int].0, v)));
            assert forall|a: int, b: int| 0 <= a < b < self.rows().len() implies #[trigger] self.key_at(a)
                != #[trigger] self.key_at(b) by {
                assert(self.key_at(a) == before.key_at(a));
                assert(self.key_at(b) == before.key_at(b));
            }
            self.lemma_same_keys_view(before, i as int, v);
        }
        prev
    }

    /// Stores `v` under `key`: replaces the value of an existing row, or appends a row.
    pub fn insert(&mut self, key: String, v: V)
        requires
            old(self).wf(),
        ensures
            final(self).wf(),
            final(self).view() == old(self).view().insert(key@, v),
    {
        match self.find(key.as_str()) {
            Some(i) => {
                self.set_value(i, v);
            },
            None => {
                let ghost before = *self;
                self.entries.push((key, v));
                proof {
                    let n = before.rows().len() as int;
                    assert forall|a: int, b: int| 0 <= a < b < self.rows().len() implies #[trigger] self.key_at(
                        a,
                    ) != #[trigger] self.key_at(b) by {
                        assert(self.key_at(a) == before.key_at(a));
                        if b < n {
                            assert(self.key_at(b) == before.key_at(b));
                        } else {
                            assert(!before.has(self.key_at(b)));
                        }
                    }
                    let m = before.view().insert(key@, v);
                    assert forall|k: Seq<char>| self.view().dom().contains(k) == m.dom().contains(k) by {
                        if self.has(k) {
                            let j = self.row_of(k);
                            if j < n {
                                assert(before.key_at(j) == k);
                            }
                        }
                        if before.has(k) {
                            let j = before.row_of(k);
                            assert(self.key_at(j) == k);
                        }
                        if k == key@ {
                            assert(self.key_at(n) == k);
                        }
                    }
                    assert forall|k: Seq<char>| #[trigger] self.view().dom().contains(k) implies self.view()[k]
                        == m[k] by {
                        let j = self.row_of(k);
                        self.lemma_row(j);
                        if j < n {
                            before.lemma_row(j);
                            assert(before.key_at(j) == k);
                        }
                    }
                    assert(self.view() =~= m);
                }
            },
        }
    }

    /// Removes the row of `key`, returning its value.
    pub fn remove(&mut self, key: &str) -> (r: Option<V>)
        requires
            old(self).wf(),
        ensures
            final(self).wf(),
            final(self).view() == old(self).view().remove(key@),
            match r {
                Some(v) => old(self).view().dom().contains(key@) && v == old(self).view()[key@],
                None => !old(self).view().dom().contains(key@),
            },
    {
        match self.find(key) {
            None => {
                assert(self.view().remove(key@) =~= self.view());
                None
            },
            Some(i) => {
                let ghost before = *self;
                let (_k, v) = self.entries.remove(i);
                proof {
                    let n = before.rows().len() as int;
                    assert forall|j: int| 0 <= j < self.rows().len() implies self.rows()[j] == (if j < i {
                        before.rows()[j]
                    } else {
                        before.rows()[j + 1]
                    }) by {}
                    assert forall|a: int, b: int| 0 <= a < b < self.rows().len() implies #[trigger] self.key_at(
                        a,
                    ) != #[trigger] self.key_at(b) by {
                        let a0 = if a < i { a } else { a + 1 };
                        let b0 = if b < i { b } else { b + 1 };
                        assert(self.key_at(a) == before.key_at(a0));
                        assert(self.key_at(b) == before.key_at(b0));
                    }
                    let m = before.view().remove(key@);
                    assert forall|k: Seq<char>| self.view().dom().contains(k) == m.dom().contains(k) by {
                        if self.has(k) {
                            let j = self.row_of(k);
                            let j0 = if j < i { j } else { j + 1 };
                            assert(before.key_at(j0) == k);
                            assert(j0 != i);
                        }
                        if before.has(k) && k != key@ {
                            let j0 = before.row_of(k);
                            assert(j0 != i);
                            let j = if j0 < i { j0 } else { j0 - 1 };
                            assert(self.key_at(j) == k);
                        }
                    }
                    assert forall|k: Seq<char>| #[trigger] self.view().dom().contains(k) implies self.view()[k]
                        == m[k] by {
                        let j = self.row_of(k);
                        self.lemma_row(j);
                        let j0 = if j < i { j } else { j + 1 };
                        before.lemma_row(j0);
                    }
                    assert(self.view() =~= m);
                    before.lemma_row(i as int);
                }
                Some(v)
            },
        }
    }

    /// Keeps the rows whose flag in `keep` is set, in order, and drops the others.
    pub fn keep_rows(&mut self, keep: &Vec<bool>)
        requires
            old(self).wf(),
            keep@.len() == old(self).rows().len(),
        ensures
            final(self).wf(),
            final(self).view() == Map::new(
                |k: Seq<char>| old(self).view().dom().contains(k) && keep@[old(self).row_of(k)],
                |k: Seq<char>| old(self).view()[k],
            ),
    {
        let ghost before = *self;
        let n = self.entries.len();
        let mut out: Vec<(String, V)> = Vec::new();
        let mut rest: Vec<(String, V)> = Vec::new();
        std::mem::swap(&mut rest, &mut self.entries);
        let mut i: usize = 0;
        let ghost kept_rows: Seq<int> = Seq::empty();
        while i < n
            invariant
                before.wf(),
                n == before.rows().len(),
                keep@.len() == n,
                i <= n,
                rest@ == before.rows().subrange(i as int, n as int),
                kept_rows.len() == out@.len(),
                forall|t: int| 0 <= t < kept_rows.len() ==> 0 <= #[trigger] kept_rows[t] < i && keep@[kept_rows[t]]
                    && out@[t] == before.rows()[kept_rows[t]],
                forall|t: int, u: int| 0 <= t < u < kept_rows.len() ==> #[trigger] kept_rows[t] < #[trigger] kept_rows[u],
                forall|j: int| 0 <= j < i && keep@[j] ==> exists|t: int| 0 <= t < kept_rows.len() && #[trigger] kept_rows[t] == j,
            decreases n - i,
        {
            let row = rest.remove(0);
            assert(row == before.rows()[i as int]);
            assert(rest@ =~= before.rows().subrange(i + 1, n as int));
            let ghost old_kr = kept_rows;
            if keep[i] {
                out.push(row);
                proof {
                    kept_rows = kept_rows.push(i as int);
                }
            }
            proof {
                assert forall|j: int| 0 <= j < i + 1 && keep@[j] implies exists|t: int|
                    0 <= t < kept_rows.len() && #[trigger] kept_rows[t] == j by {
                    if j == i {
                        assert(kept_rows[kept_rows.len() - 1] == j);
                    } else {
                        let t = choose|t: int| 0 <= t < old_kr.len() && #[trigger] old_kr[t] == j;
                        assert(kept_rows[t] == j);
                    }
                }
            }
            i = i + 1;
        }
        self.entries = out;
        proof {
            assert forall|a: int, b: int| 0 <= a < b < self.rows().len() implies #[trigger] self.key_at(a)
                != #[trigger] self.key_at(b) by {
                assert(self.key_at(a) == before.key_at(kept_rows[a]));
                assert(self.key_at(b) == before.key_at(kept_rows[b]));
            }
            let m = Map::new(
                |k: Seq<char>| before.view().dom().contains(k) && keep@[before.row_of(k)],
                |k: Seq<char>| before.view()[k],
            );
            assert forall|k: Seq<char>| self.view().dom().contains(k) == m.dom().contains(k) by {
                if self.has(k) {
                    let t = self.row_of(k);
                    let j = kept_rows[t];
                    before.lemma_row(j);
                    assert(before.key_at(j) == k);
                }
                if m.dom().contains(k) {
                    let j = before.row_of(k);
                    let t = choose|t: int| 0 <= t < kept_rows.len() && #[trigger] kept_rows[t] == j;
                    assert(self.key_at(t) == k);
                }
            }
            assert forall|k: Seq<char>| #[trigger] self.view().dom().contains(k) implies self.view()[k] == m[k] by {
                let t = self.row_of(k);
                self.lemma_row(t);
                let j = kept_rows[t];
                before.lemma_row(j);
            }
            assert(self.view() =~= m);
        }
    }

    proof fn lemma_dom_len(&self)
        requires
            self.wf(),
        ensures
            (self.view().dom().len() == 0) == (self.rows().len() == 0),
    {
        if self.rows().len() == 0 {
            assert(self.view().dom() =~= Set::<Seq<char>>::empty());
        } else {
            self.lemma_row(0);
            assert(self.view().dom().finite()) by {
                self.lemma_dom_finite();
            }
            vstd::set_lib::lemma_set_empty_equivalency_len(self.view().dom());
        }
    }

    proof fn lemma_dom_finite(&self)
        ensures
            self.view().dom().finite(),
    {
        let keys = Seq::new(self.rows().len(), |i: int| self.key_at(i));
        assert(self.view().dom() =~= keys.to_set()) by {
            assert forall|k: Seq<char>| self.view().dom().contains(k) implies keys.to_set().contains(k) by {
                let j = self.row_of(k);
                assert(keys[j] == k);
            }
            assert forall|k: Seq<char>| keys.to_set().contains(k) implies self.view().dom().contains(k) by {
                let j = choose|j: int| 0 <= j < keys.len() && keys[j] == k;
                assert(self.key_at(j) == k);
            }
        }
        vstd::seq_lib::seq_to_set_is_finite(keys);
    }
}

/// The whole ledger state: balances, users, sessions and pending phone verifications.
pub struct Persisted {
    pub schema_version: u32,
    /// Keyed by `account_key(user_id)`.
    pub accounts: Table<Account>,
    /// Keyed by user id.
    pub users: Table<User>,
    /// Keyed by the HMAC of the session token, never the token itself.
    pub sessions: Table<Session>,
    /// Keyed by `pending_key(purpose, phone)`, so each purpose has its own slot.
    pub pending: Table<PendingVerification>,
}

impl Persisted {
    /// Every table is well formed and no balance is negative.
    pub open spec fn wf(&self) -> bool {
        &&& self.accounts.wf()
        &&& self.users.wf()
        &&& self.sessions.wf()
        &&& self.pending.wf()
        &&& forall|k: Seq<char>| #[trigger] self.accounts.view().dom().contains(k) ==> self.accounts.view()[k].balance >= 0
    }

    /// A fresh, empty state at the current schema version.
    pub fn new() -> (p: Self)
        ensures
            p.wf(),
            p.schema_version == SCHEMA_VERSION,
            p.accounts.view() == Map::<Seq<char>, Account>::empty(),
            p.users.view() == Map::<Seq<char>, User>::empty(),
            p.sessions.view() == Map::<Seq<char>, Session>::empty(),
            p.pending.view() == Map::<Seq<char>, PendingVerification>::empty(),
    {
        Persisted {
            schema_version: SCHEMA_VERSION,
            accounts: Table::new(),
            users: Table::new(),
            sessions: Table::new(),
            pending: Table::new(),
        }
    }
}

/// The ledger: its state and what the last write to disk reported.
pub struct Store {
    state: Persisted,
    last_persist_ok: bool,
    last_persist_micros: u64,
}

impl Store {
    /// The ledger state.
    pub closed spec fn state(&self) -> Persisted {
        self.state
    }

    /// The health pair reported by `persist_health`.
    pub closed spec fn health(&self) -> (bool, u64) {
        (self.last_persist_ok, self.last_persist_micros)
    }

    /// The store's state is well formed.
    pub open spec fn wf(&self) -> bool {
        self.state().wf()
    }

    /// A store holding `state`, with a healthy persistence record.
    pub fn from_state(state: Persisted) -> (s: Self)
        requires
            state.wf(),
        ensures
            s.wf(),
            s.state() == state,
            s.health() == (true, 0u64),
    {
        Store { state, last_persist_ok: true, last_persist_micros: 0 }
    }

    /// A store that starts from an empty ledger.
    pub fn in_memory() -> (s: Self)
        ensures
            s.wf(),
            s.state().schema_version == SCHEMA_VERSION,
            s.state().accounts.view() == Map::<Seq<char>, Account>::empty(),
            s.state().users.view() == Map::<Seq<char>, User>::empty(),
            s.state().sessions.view() == Map::<Seq<char>, Session>::empty(),
            s.state().pending.view() == Map::<Seq<char>, PendingVerification>::empty(),
            s.health() == (true, 0u64),
    {
        Store::from_state(Persisted::new())
    }

    /// Read-only access to the state.
    pub fn read<T, F: FnOnce(&Persisted) -> T>(&self, f: F) -> (r: T)
        requires
            f.requires((&self.state(),)),
        ensures
            f.ensures((&self.state(),), r),
    {
        f(&self.state)
    }

    /// The state, for callers that serialise it.
    pub fn snapshot(&self) -> (p: &Persisted)
        ensures
            *p == self.state(),
    {
        &self.state
    }

    /// Puts back a state taken before a failed write to disk.
    pub fn restore(&mut self, state: Persisted)
        requires
            state.wf(),
        ensures
            final(self).wf(),
            final(self).state() == state,
            final(self).health() == old(self).health(),
    {
        self.state = state;
    }

    /// Records the outcome of a write to disk: whether it succeeded and, when it did,
    /// how long it took.
    pub fn record_persist(&mut self, ok: bool, micros: u64)
        ensures
            final(self).state() == old(self).state(),
            final(self).health() == (if ok { (true, micros) } else { (false, old(self).health().1) }),
    {
        self.last_persist_ok = ok;
        if ok {
            self.last_persist_micros = micros;
        }
    }

    /// Whether the last write to disk succeeded, and how many microseconds the last
    /// successful one took.
    pub fn persist_health(&self) -> (h: (bool, u64))
        ensures
            h == self.health(),
    {
        (self.last_persist_ok, self.last_persist_micros)
    }

    /// Mutable access to the state for the ledger and account operations of this crate.
    pub(crate) fn state_mut(&mut self) -> (p: &mut Persisted)
        ensures
            *p == old(self).state(),
            final(self).state() == *final(p),
            final(self).health() == old(self).health(),
    {
        &mut self.state
    }
}

} // verus!
