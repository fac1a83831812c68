//! The persistent cache store: client registrations, bearer tokens, account
//! and role listings, an append-only usage history, and the sort setting.
//!
//! Each table is keyed (registrations by partition; tokens by partition and
//! token type; accounts by partition and account id; roles by partition,
//! account id and role name) and every write is an upsert: the last write for
//! a key wins. Validity windows (`expires_at`) are checked by the readers;
//! the store itself only answers "what is stored". All timestamps are epoch
//! milliseconds.

use vstd::prelude::*;

use crate::util::{first_match, lemma_first_match_exists, lemma_first_match_none_push,
    lemma_first_match_some_push, lemma_first_match_take};

verus! {

/// Grace buffer subtracted from a registration's expiry before comparing
/// it with the current time. Named so the policy is explicit; the buffer
/// in force is zero.
pub const REGISTRATION_GRACE_MS: i64 = 0;

/// How long an account listing stays fresh: five hours.
pub const ACCOUNT_FRESH_WINDOW_MS: i64 = 18000000;

/// A client registration issued by the identity provider for one partition.
pub struct Registration {
    pub partition: String,
    pub client_id: String,
    pub client_secret: String,
    pub issued_at: i64,
    pub expires_at: i64,
}

impl Clone for Registration {
    fn clone(&self) -> (r: Self)
        ensures
            r == *self,
    {
        Registration {
            partition: self.partition.clone(),
            client_id: self.client_id.clone(),
            client_secret: self.client_secret.clone(),
            issued_at: self.issued_at,
            expires_at: self.expires_at,
        }
    }
}

/// A bearer token for one partition.
pub struct Token {
    pub partition: String,
    pub token_type: String,
    pub access_token: String,
    pub expires_at: i64,
}

impl Clone for Token {
    fn clone(&self) -> (r: Self)
        ensures
            r == *self,
    {
        Token {
            partition: self.partition.clone(),
            token_type: self.token_type.clone(),
            access_token: self.access_token.clone(),
            expires_at: self.expires_at,
        }
    }
}

/// A cached account listing row.
pub struct Account {
    pub partition: String,
    pub account_id: String,
    pub email_address: String,
    pub account_name: String,
    pub updated_at: i64,
}

impl Clone for Account {
    fn clone(&self) -> (r: Self)
        ensures
            r == *self,
    {
        Account {
            partition: self.partition.clone(),
            account_id: self.account_id.clone(),
            email_address: self.email_address.clone(),
            account_name: self.account_name.clone(),
            updated_at: self.updated_at,
        }
    }
}

/// A cached role listing row.
pub struct Role {
    pub partition: String,
    pub account_id: String,
    pub role_name: String,
    pub updated_at: i64,
}

impl Clone for Role {
    fn clone(&self) -> (r: Self)
        ensures
            r == *self,
    {
        Role {
            partition: self.partition.clone(),
            account_id: self.account_id.clone(),
            role_name: self.role_name.clone(),
            updated_at: self.updated_at,
        }
    }
}

/// How a role was assumed, for the usage history.
#[derive(PartialEq, Eq, Structural, Clone, Copy, Debug)]
pub enum AssumeStyle {
    WebConsole,
    WindowsCopy,
    LinuxCopy,
}

/// One usage-history entry to append.
pub struct HistoryNew {
    pub partition: String,
    pub account: String,
    pub role: String,
    pub style: AssumeStyle,
    pub service: Option<String>,
}

impl Clone for HistoryNew {
    fn clone(&self) -> (r: Self)
        ensures
            r == *self,
    {
        HistoryNew {
            partition: self.partition.clone(),
            account: self.account.clone(),
            role: self.role.clone(),
            style: self.style,
            service: match &self.service {
                Some(s) => Some(s.clone()),
                None => None,
            },
        }
    }
}

/// The account display ordering a consumer asked for.
#[derive(PartialEq, Eq, Structural, Clone, Copy, Debug)]
pub enum SortOrder {
    ALPHA,
    FRECENCY,
}

/// The singleton sort setting.
#[derive(PartialEq, Eq, Structural, Clone, Copy, Debug)]
pub struct SettingSort {
    pub value: SortOrder,
}

// ---------------------------------------------------------------------------
// Validity windows
// ---------------------------------------------------------------------------

/// A registration for partition `p` that is still usable at `now`.
pub open spec fn reg_live(r: Registration, p: Seq<char>, now: int) -> bool {
    r.partition@ == p && r.expires_at - REGISTRATION_GRACE_MS > now
}

/// A token for partition `p` that is still usable at `now`.
pub open spec fn token_live(t: Token, p: Seq<char>, now: int) -> bool {
    t.partition@ == p && t.expires_at > now
}

/// The first stored registration that is live for `p` at `now`.
pub open spec fn find_valid_registration(regs: Seq<Registration>, p: Seq<char>, now: int) -> Option<
    Registration,
> {
    first_match(regs, |r: Registration| reg_live(r, p, now))
}

/// Whether some stored registration is live for `p` at `now`.
pub open spec fn has_valid_registration(regs: Seq<Registration>, p: Seq<char>, now: int) -> bool {
    exists|i: int| 0 <= i < regs.len() && reg_live(#[trigger] regs[i], p, now)
}

/// The first stored token that is live for `p` at `now`.
pub open spec fn find_valid_token(toks: Seq<Token>, p: Seq<char>, now: int) -> Option<Token> {
    first_match(toks, |t: Token| token_live(t, p, now))
}

/// Whether some stored token is live for `p` at `now`.
pub open spec fn has_valid_token(toks: Seq<Token>, p: Seq<char>, now: int) -> bool {
    exists|i: int| 0 <= i < toks.len() && token_live(#[trigger] toks[i], p, now)
}

// ---------------------------------------------------------------------------
// Keys and upserts
// ---------------------------------------------------------------------------

/// Registrations are keyed by partition.
pub open spec fn same_reg_key(a: Registration, b: Registration) -> bool {
    a.partition@ == b.partition@
}

/// Tokens are keyed by partition and token type.
pub open spec fn same_token_key(a: Token, b: Token) -> bool {
    a.partition@ == b.partition@ && a.token_type@ == b.token_type@
}

/// Accounts are keyed by partition and account id.
pub open spec fn same_account_key(a: Account, b: Account) -> bool {
    a.partition@ == b.partition@ && a.account_id@ == b.account_id@
}

/// Roles are keyed by partition, account id and role name.
pub open spec fn same_role_key(a: Role, b: Role) -> bool {
    a.partition@ == b.partition@ && a.account_id@ == b.account_id@ && a.role_name@ == b.role_name@
}

/// Whether `s` holds a row with the key of `x`.
pub open spec fn has_key<A>(s: Seq<A>, x: A, same: spec_fn(A, A) -> bool) -> bool {
    exists|i: int| 0 <= i < s.len() && same(x, #[trigger] s[i])
}

/// The index of the row with the key of `x` (meaningful when keys are unique).
pub open spec fn key_idx<A>(s: Seq<A>, x: A, same: spec_fn(A, A) -> bool) -> int {
    choose|i: int| 0 <= i < s.len() && same(x, #[trigger] s[i])
}

/// Upsert: replace the row with the key of `x`, or append `x`.
pub open spec fn spec_upsert<A>(s: Seq<A>, x: A, same: spec_fn(A, A) -> bool) -> Seq<A> {
    if has_key(s, x, same) {
        s.update(key_idx(s, x, same), x)
    } else {
        s.push(x)
    }
}

/// No two rows of `s` share a key.
pub open spec fn unique_keys<A>(s: Seq<A>, same: spec_fn(A, A) -> bool) -> bool {
    forall|i: int, j: int| 0 <= i < j < s.len() ==> !same(#[trigger] s[i], #[trigger] s[j])
}

/// With unique keys, a found match at `i` pins `key_idx` to `i`.
pub proof fn lemma_key_idx<A>(s: Seq<A>, x: A, same: spec_fn(A, A) -> bool, i: int)
    requires
        0 <= i < s.len(),
        same(x, s[i]),
        forall|j: int| 0 <= j < s.len() && j != i ==> !same(x, #[trigger] s[j]),
    ensures
        has_key(s, x, same),
        key_idx(s, x, same) == i,
{
    let k = key_idx(s, x, same);
    assert(0 <= k < s.len() && same(x, s[k]));
}

/// What `put_registration` stores: the upsert of one row.
pub open spec fn spec_put_registration(s: Seq<Registration>, x: Registration) -> Seq<
    Registration,
> {
    spec_upsert(s, x, |a: Registration, b: Registration| same_reg_key(a, b))
}

/// What `Token::insert` stores.
pub open spec fn spec_put_token(s: Seq<Token>, x: Token) -> Seq<Token> {
    spec_upsert(s, x, |a: Token, b: Token| same_token_key(a, b))
}

/// What `Account::insert` stores.
pub open spec fn spec_put_account(s: Seq<Account>, x: Account) -> Seq<Account> {
    spec_upsert(s, x, |a: Account, b: Account| same_account_key(a, b))
}

/// What `Role::insert` stores.
pub open spec fn spec_put_role(s: Seq<Role>, x: Role) -> Seq<Role> {
    spec_upsert(s, x, |a: Role, b: Role| same_role_key(a, b))
}

/// Upserting each row of `list` in order, starting from `s`.
pub open spec fn spec_put_accounts(s: Seq<Account>, list: Seq<Account>) -> Seq<Account>
    decreases list.len(),
{
    if list.len() == 0 {
        s
    } else {
        spec_put_accounts(spec_put_account(s, list[0]), list.drop_first())
    }
}

/// Upserting each row of `list` in order, starting from `s`.
pub open spec fn spec_put_roles(s: Seq<Role>, list: Seq<Role>) -> Seq<Role>
    decreases list.len(),
{
    if list.len() == 0 {
        s
    } else {
        spec_put_roles(spec_put_role(s, list[0]), list.drop_first())
    }
}

proof fn lemma_put_accounts_step(s: Seq<Account>, list: Seq<Account>, i: int)
    requires
        0 <= i < list.len(),
    ensures
        spec_put_accounts(s, list.take(i + 1)) == spec_put_account(
            spec_put_accounts(s, list.take(i)),
            list[i],
        ),
    decreases i,
{
    if i == 0 {
        assert(list.take(1)[0] == list[0]);
        assert(list.take(1).drop_first() =~= Seq::<Account>::empty());
        assert(list.take(0) =~= Seq::<Account>::empty());
        assert(spec_put_accounts(spec_put_account(s, list[0]), Seq::<Account>::empty()) == spec_put_account(s, list[0]));
        assert(spec_put_accounts(s, Seq::<Account>::empty()) == s);
    } else {
        assert(list.take(i + 1)[0] == list[0]);
        assert(list.take(i)[0] == list[0]);
        assert(list.take(i + 1).drop_first() =~= list.drop_first().take(i));
        assert(list.take(i).drop_first() =~= list.drop_first().take(i - 1));
        lemma_put_accounts_step(spec_put_account(s, list[0]), list.drop_first(), i - 1);
        assert(list.drop_first()[i - 1] == list[i]);
    }
}

proof fn lemma_put_roles_step(s: Seq<Role>, list: Seq<Role>, i: int)
    requires
        0 <= i < list.len(),
    ensures
        spec_put_roles(s, list.take(i + 1)) == spec_put_role(
            spec_put_roles(s, list.take(i)),
            list[i],
        ),
    decreases i,
{
    if i == 0 {
        assert(list.take(1)[0] == list[0]);
        assert(list.take(1).drop_first() =~= Seq::<Role>::empty());
        assert(list.take(0) =~= Seq::<Role>::empty());
        assert(spec_put_roles(spec_put_role(s, list[0]), Seq::<Role>::empty()) == spec_put_role(s, list[0]));
        assert(spec_put_roles(s, Seq::<Role>::empty()) == s);
    } else {
        assert(list.take(i + 1)[0] == list[0]);
        assert(list.take(i)[0] == list[0]);
        assert(list.take(i + 1).drop_first() =~= list.drop_first().take(i));
        assert(list.take(i).drop_first() =~= list.drop_first().take(i - 1));
        lemma_put_roles_step(spec_put_role(s, list[0]), list.drop_first(), i - 1);
        assert(list.drop_first()[i - 1] == list[i]);
    }
}

// ---------------------------------------------------------------------------
// Projections
// ---------------------------------------------------------------------------

/// The stored accounts of one partition, in storage order.
pub open spec fn accounts_for(s: Seq<Account>, p: Seq<char>) -> Seq<Account> {
    s.filter(|a: Account| a.partition@ == p)
}

/// The stored roles of one (partition, account) pair, in storage order.
pub open spec fn roles_for(s: Seq<Role>, p: Seq<char>, aid: Seq<char>) -> Seq<Role> {
    s.filter(|r: Role| r.partition@ == p && r.account_id@ == aid)
}

/// The numeric wire value of the sort setting: `FRECENCY` is 1, anything
/// else (including an unset value) is 0.
pub open spec fn sort_code(o: Option<SortOrder>) -> int {
    match o {
        Some(SortOrder::FRECENCY) => 1,
        _ => 0,
    }
}

/// The stored registrations of one partition, in storage order.
pub open spec fn registrations_for(s: Seq<Registration>, p: Seq<char>) -> Seq<Registration> {
    s.filter(|r: Registration| r.partition@ == p)
}

/// Everything but the registration table is the same in both stores.
pub open spec fn same_but_registrations(pre: CacheStore, post: CacheStore) -> bool {
    &&& post.token_rows() == pre.token_rows()
    &&& post.account_rows() == pre.account_rows()
    &&& post.role_rows() == pre.role_rows()
    &&& post.history_rows() == pre.history_rows()
    &&& post.sort_setting_opt() == pre.sort_setting_opt()
}

/// Everything but the token table is the same in both stores.
pub open spec fn same_but_tokens(pre: CacheStore, post: CacheStore) -> bool {
    &&& post.reg_rows() == pre.reg_rows()
    &&& post.account_rows() == pre.account_rows()
    &&& post.role_rows() == pre.role_rows()
    &&& post.history_rows() == pre.history_rows()
    &&& post.sort_setting_opt() == pre.sort_setting_opt()
}

/// Everything but the account table is the same in both stores.
pub open spec fn same_but_accounts(pre: CacheStore, post: CacheStore) -> bool {
    &&& post.reg_rows() == pre.reg_rows()
    &&& post.token_rows() == pre.token_rows()
    &&& post.role_rows() == pre.role_rows()
    &&& post.history_rows() == pre.history_rows()
    &&& post.sort_setting_opt() == pre.sort_setting_opt()
}

/// Everything but the role table is the same in both stores.
pub open spec fn same_but_roles(pre: CacheStore, post: CacheStore) -> bool {
    &&& post.reg_rows() == pre.reg_rows()
    &&& post.token_rows() == pre.token_rows()
    &&& post.account_rows() == pre.account_rows()
    &&& post.history_rows() == pre.history_rows()
    &&& post.sort_setting_opt() == pre.sort_setting_opt()
}

/// Both stores hold exactly the same rows and setting.
pub open spec fn store_unchanged(pre: CacheStore, post: CacheStore) -> bool {
    &&& post.reg_rows() == pre.reg_rows()
    &&& same_but_registrations(pre, post)
}

// ---------------------------------------------------------------------------
// The store
// ---------------------------------------------------------------------------

/// The cache store. One instance owns all durable entities; callers decide
/// freshness, the store answers what is stored.
pub struct CacheStore {
    registrations: Vec<Registration>,
    tokens: Vec<Token>,
    accounts: Vec<Account>,
    roles: Vec<Role>,
    history: Vec<HistoryNew>,
    sort_setting: Option<SortOrder>,
}

impl CacheStore {
    /// The stored registration rows.
    pub closed spec fn reg_rows(&self) -> Seq<Registration> {
        self.registrations@
    }

    /// The stored token rows.
    pub closed spec fn token_rows(&self) -> Seq<Token> {
        self.tokens@
    }

    /// The stored account rows.
    pub closed spec fn account_rows(&self) -> Seq<Account> {
        self.accounts@
    }

    /// The stored role rows.
    pub closed spec fn role_rows(&self) -> Seq<Role> {
        self.roles@
    }

    /// The stored history, oldest first.
    pub closed spec fn history_rows(&self) -> Seq<HistoryNew> {
        self.history@
    }

    /// The stored sort setting, if any.
    pub closed spec fn sort_setting_opt(&self) -> Option<SortOrder> {
        self.sort_setting
    }

    /// Every table keeps at most one row per key.
    pub open spec fn wf(&self) -> bool {
        &&& unique_keys(self.reg_rows(), |a: Registration, b: Registration| same_reg_key(a, b))
        &&& unique_keys(self.token_rows(), |a: Token, b: Token| same_token_key(a, b))
        &&& unique_keys(self.account_rows(), |a: Account, b: Account| same_account_key(a, b))
        &&& unique_keys(self.role_rows(), |a: Role, b: Role| same_role_key(a, b))
    }

    /// An empty store.
    pub fn new() -> (r: CacheStore)
        ensures
            r.wf(),
            r.reg_rows() == Seq::<Registration>::empty(),
            r.token_rows() == Seq::<Token>::empty(),
            r.account_rows() == Seq::<Account>::empty(),
            r.role_rows() == Seq::<Role>::empty(),
            r.history_rows() == Seq::<HistoryNew>::empty(),
            r.sort_setting_opt() is None,
    {
        CacheStore {
            registrations: Vec::new(),
            tokens: Vec::new(),
            accounts: Vec::new(),
            roles: Vec::new(),
            history: Vec::new(),
            sort_setting: None,
        }
    }

    /// The registration stored for `partition` that is still usable at
    /// `now_ms`, if any. Expired and missing rows both answer `None`.
    pub fn get_valid_registration(&self, partition: &String, now_ms: i64) -> (r: Option<
        Registration,
    >)
        ensures
            r == find_valid_registration(self.reg_rows(), partition@, now_ms as int),
            r is Some <==> has_valid_registration(self.reg_rows(), partition@, now_ms as int),
    {
        let ghost pred = |x: Registration| reg_live(x, partition@, now_ms as int);
        let n = self.registrations.len();
        let mut i: usize = 0;
        while i < n
            invariant
                0 <= i <= n,
                n == self.reg_rows().len(),
                first_match(self.reg_rows().take(i as int), pred) is None,
                pred == (|x: Registration| reg_live(x, partition@, now_ms as int)),
            decreases n - i,
        {
            let row = &self.registrations[i];
            let live = row.partition == *partition && row.expires_at > now_ms;
            if live {
                proof {
                    lemma_first_match_some_push(self.reg_rows().take(i as int), pred,
                        self.reg_rows()[i as int]);
                    assert(self.reg_rows().take(i as int).push(self.reg_rows()[i as int])
                        =~= self.reg_rows().take(i as int + 1));
                    lemma_first_match_take(self.reg_rows(), pred, i as int + 1);
                    lemma_first_match_exists(self.reg_rows(), pred);
                }
                return Some(row.clone());
            }
            proof {
                lemma_first_match_none_push(self.reg_rows().take(i as int), pred,
                    self.reg_rows()[i as int]);
                assert(self.reg_rows().take(i as int).push(self.reg_rows()[i as int])
                    =~= self.reg_rows().take(i as int + 1));
            }
            i += 1;
        }
        proof {
            assert(self.reg_rows().take(n as int) =~= self.reg_rows());
            lemma_first_match_exists(self.reg_rows(), pred);
        }
        None
    }

    /// The token stored for `partition` that is still usable at `now_ms`,
    /// if any. Expired and missing rows both answer `None`.
    pub fn get_valid_token(&self, partition: &String, now_ms: i64) -> (r: Option<Token>)
        ensures
            r == find_valid_token(self.token_rows(), partition@, now_ms as int),
            r is Some <==> has_valid_token(self.token_rows(), partition@, now_ms as int),
    {
        let ghost pred = |x: Token| token_live(x, partition@, now_ms as int);
        let n = self.tokens.len();
        let mut i: usize = 0;
        while i < n
            invariant
                0 <= i <= n,
                n == self.token_rows().len(),
                first_match(self.token_rows().take(i as int), pred) is None,
                pred == (|x: Token| token_live(x, partition@, now_ms as int)),
            decreases n - i,
        {
            let row = &self.tokens[i];
            let live = row.partition == *partition && row.expires_at > now_ms;
            if live {
                proof {
                    lemma_first_match_some_push(self.token_rows().take(i as int), pred,
                        self.token_rows()[i as int]);
                    assert(self.token_rows().take(i as int).push(self.token_rows()[i as int])
                        =~= self.token_rows().take(i as int + 1));
                    lemma_first_match_take(self.token_rows(), pred, i as int + 1);
                    lemma_first_match_exists(self.token_rows(), pred);
                }
                return Some(row.clone());
            }
            proof {
                lemma_first_match_none_push(self.token_rows().take(i as int), pred,
                    self.token_rows()[i as int]);
                assert(self.token_rows().take(i as int).push(self.token_rows()[i as int])
                    =~= self.token_rows().take(i as int + 1));
            }
            i += 1;
        }
        proof {
            assert(self.token_rows().take(n as int) =~= self.token_rows());
            lemma_first_match_exists(self.token_rows(), pred);
        }
        None
    }

    /// Upserts a registration from its fields; the last write per partition
    /// wins. Returns the stored row.
    pub fn put_registration(
        &mut self,
        partition: String,
        client_id: String,
        client_secret: String,
        issued_at: i64,
        expires_at: i64,
    ) -> (r: Registration)
        requires
            old(self).wf(),
        ensures
            final(self).wf(),
            r.partition == partition && r.client_id == client_id && r.client_secret
                == client_secret && r.issued_at == issued_at && r.expires_at == expires_at,
            final(self).reg_rows() == spec_put_registration(old(self).reg_rows(), r),
            final(self).token_rows() == old(self).token_rows(),
            final(self).account_rows() == old(self).account_rows(),
            final(self).role_rows() == old(self).role_rows(),
            final(self).history_rows() == old(self).history_rows(),
            final(self).sort_setting_opt() == old(self).sort_setting_opt(),
    {
        let row = Registration { partition, client_id, client_secret, issued_at, expires_at };
        let out = row.clone();
        row.insert(self);
        out
    }

    /// Computes a token's expiry from `now_ms` and upserts it; the token
    /// type must be `Bearer`. Returns the stored row.
    pub fn put_token(
        &mut self,
        partition: String,
        access_token: String,
        expires_in_seconds: i64,
        token_type: String,
        now_ms: i64,
    ) -> (r: Token)
        requires
            old(self).wf(),
            token_type@ == "Bearer"@,
            0 <= now_ms,
            0 <= expires_in_seconds,
            now_ms + expires_in_seconds * 1000 <= i64::MAX,
        ensures
            final(self).wf(),
            r.partition == partition && r.token_type == token_type && r.access_token
                == access_token && r.expires_at == now_ms + expires_in_seconds * 1000,
            final(self).token_rows() == spec_put_token(old(self).token_rows(), r),
            final(self).reg_rows() == old(self).reg_rows(),
            final(self).account_rows() == old(self).account_rows(),
            final(self).role_rows() == old(self).role_rows(),
            final(self).history_rows() == old(self).history_rows(),
            final(self).sort_setting_opt() == old(self).sort_setting_opt(),
    {
        let expires_at = now_ms + expires_in_seconds * 1000;
        let row = Token { partition, token_type, access_token, expires_at };
        let out = row.clone();
        row.insert(self);
        out
    }

    /// Upserts every row of `list`, in order.
    pub fn put_accounts(&mut self, list: &Vec<Account>)
        requires
            old(self).wf(),
        ensures
            final(self).wf(),
            final(self).account_rows() == spec_put_accounts(old(self).account_rows(), list@),
            final(self).reg_rows() == old(self).reg_rows(),
            final(self).token_rows() == old(self).token_rows(),
            final(self).role_rows() == old(self).role_rows(),
            final(self).history_rows() == old(self).history_rows(),
            final(self).sort_setting_opt() == old(self).sort_setting_opt(),
    {
        let n = list.len();
        let mut i: usize = 0;
        while i < n
            invariant
                0 <= i <= n,
                n == list@.len(),
                self.wf(),
                self.account_rows() == spec_put_accounts(old(self).account_rows(), list@.take(
                    i as int,
                )),
                self.reg_rows() == old(self).reg_rows(),
                self.token_rows() == old(self).token_rows(),
                self.role_rows() == old(self).role_rows(),
                self.history_rows() == old(self).history_rows(),
                self.sort_setting_opt() == old(self).sort_setting_opt(),
            decreases n - i,
        {
            list[i].clone().insert(self);
            proof {
                lemma_put_accounts_step(old(self).account_rows(), list@, i as int);
            }
            i += 1;
        }
        proof {
            assert(list@.take(n as int) =~= list@);
        }
    }

    /// Upserts every row of `list`, in order.
    pub fn put_roles(&mut self, list: &Vec<Role>)
        requires
            old(self).wf(),
        ensures
            final(self).wf(),
            final(self).role_rows() == spec_put_roles(old(self).role_rows(), list@),
            final(self).reg_rows() == old(self).reg_rows(),
            final(self).token_rows() == old(self).token_rows(),
            final(self).account_rows() == old(self).account_rows(),
            final(self).history_rows() == old(self).history_rows(),
            final(self).sort_setting_opt() == old(self).sort_setting_opt(),
    {
        let n = list.len();
        let mut i: usize = 0;
        while i < n
            invariant
                0 <= i <= n,
                n == list@.len(),
                self.wf(),
                self.role_rows() == spec_put_roles(old(self).role_rows(), list@.take(i as int)),
                self.reg_rows() == old(self).reg_rows(),
                self.token_rows() == old(self).token_rows(),
                self.account_rows() == old(self).account_rows(),
                self.history_rows() == old(self).history_rows(),
                self.sort_setting_opt() == old(self).sort_setting_opt(),
            decreases n - i,
        {
            list[i].clone().insert(self);
            proof {
                lemma_put_roles_step(old(self).role_rows(), list@, i as int);
            }
            i += 1;
        }
        proof {
            assert(list@.take(n as int) =~= list@);
        }
    }

    /// All stored accounts of one partition, in storage order.
    pub fn get_accounts(&self, partition: &String) -> (r: Vec<Account>)
        ensures
            r@ == accounts_for(self.account_rows(), partition@),
    {
        let ghost pred = |a: Account| a.partition@ == partition@;
        let mut out: Vec<Account> = Vec::new();
        let n = self.accounts.len();
        let mut i: usize = 0;
        proof {
            assert(self.account_rows().take(0) =~= Seq::<Account>::empty());
            assert(Seq::<Account>::empty().filter(pred) =~= Seq::<Account>::empty()) by {
                reveal(Seq::filter);
            }
        }
        while i < n
            invariant
                0 <= i <= n,
                n == self.account_rows().len(),
                out@ == self.account_rows().take(i as int).filter(pred),
                pred == (|a: Account| a.partition@ == partition@),
            decreases n - i,
        {
            proof {
                let pfx = self.account_rows().take(i as int);
                let one = seq![self.account_rows()[i as int]];
                assert(self.account_rows().take(i as int + 1) =~= pfx + one);
                Seq::<Account>::filter_distributes_over_add(pfx, one, pred);
                reveal(Seq::filter);
                assert(one.drop_last() =~= Seq::<Account>::empty());
                assert(Seq::<Account>::empty().filter(pred) =~= Seq::<Account>::empty());
            }
            let row = &self.accounts[i];
            if row.partition == *partition {
                out.push(row.clone());
            }
            i += 1;
        }
        proof {
            assert(self.account_rows().take(n as int) =~= self.account_rows());
        }
        out
    }

    /// All stored roles of one (partition, account) pair, in storage order.
    pub fn get_roles(&self, partition: &String, account_id: &String) -> (r: Vec<Role>)
        ensures
            r@ == roles_for(self.role_rows(), partition@, account_id@),
    {
        let ghost pred = |x: Role| x.partition@ == partition@ && x.account_id@ == account_id@;
        let mut out: Vec<Role> = Vec::new();
        let n = self.roles.len();
        let mut i: usize = 0;
        proof {
            assert(self.role_rows().take(0) =~= Seq::<Role>::empty());
            assert(Seq::<Role>::empty().filter(pred) =~= Seq::<Role>::empty()) by {
                reveal(Seq::filter);
            }
        }
        while i < n
            invariant
                0 <= i <= n,
                n == self.role_rows().len(),
                out@ == self.role_rows().take(i as int).filter(pred),
                pred == (|x: Role| x.partition@ == partition@ && x.account_id@ == account_id@),
            decreases n - i,
        {
            proof {
                let pfx = self.role_rows().take(i as int);
                let one = seq![self.role_rows()[i as int]];
                assert(self.role_rows().take(i as int + 1) =~= pfx + one);
                Seq::<Role>::filter_distributes_over_add(pfx, one, pred);
                reveal(Seq::filter);
                assert(one.drop_last() =~= Seq::<Role>::empty());
                assert(Seq::<Role>::empty().filter(pred) =~= Seq::<Role>::empty());
            }
            let row = &self.roles[i];
            let hit = row.partition == *partition && row.account_id == *account_id;
            if hit {
                out.push(row.clone());
            }
            i += 1;
        }
        proof {
            assert(self.role_rows().take(n as int) =~= self.role_rows());
        }
        out
    }

    /// Appends one history entry; history is never rewritten.
    pub fn append_history(&mut self, entry: HistoryNew)
        requires
            old(self).wf(),
        ensures
            final(self).wf(),
            final(self).history_rows() == old(self).history_rows().push(entry),
            final(self).reg_rows() == old(self).reg_rows(),
            final(self).token_rows() == old(self).token_rows(),
            final(self).account_rows() == old(self).account_rows(),
            final(self).role_rows() == old(self).role_rows(),
            final(self).sort_setting_opt() == old(self).sort_setting_opt(),
    {
        self.history.push(entry);
    }

    /// Wipes accounts, roles, tokens and registrations in one step. History
    /// and the sort setting are kept.
    pub fn clear_all(&mut self)
        requires
            old(self).wf(),
        ensures
            final(self).wf(),
            final(self).reg_rows() == Seq::<Registration>::empty(),
            final(self).token_rows() == Seq::<Token>::empty(),
            final(self).account_rows() == Seq::<Account>::empty(),
            final(self).role_rows() == Seq::<Role>::empty(),
            final(self).history_rows() == old(self).history_rows(),
            final(self).sort_setting_opt() == old(self).sort_setting_opt(),
    {
        self.registrations.clear();
        self.tokens.clear();
        self.accounts.clear();
        self.roles.clear();
    }

    /// Stores the sort setting.
    pub fn set_sort_setting(&mut self, value: SortOrder)
        requires
            old(self).wf(),
        ensures
            final(self).wf(),
            final(self).sort_setting_opt() == Some(value),
            final(self).reg_rows() == old(self).reg_rows(),
            final(self).token_rows() == old(self).token_rows(),
            final(self).account_rows() == old(self).account_rows(),
            final(self).role_rows() == old(self).role_rows(),
            final(self).history_rows() == old(self).history_rows(),
    {
        self.sort_setting = Some(value);
    }
}

impl Registration {
    /// Upserts this row; the last write per partition wins.
    pub fn insert(self, store: &mut CacheStore)
        requires
            old(store).wf(),
        ensures
            final(store).wf(),
            final(store).reg_rows() == spec_put_registration(old(store).reg_rows(), self),
            final(store).token_rows() == old(store).token_rows(),
            final(store).account_rows() == old(store).account_rows(),
            final(store).role_rows() == old(store).role_rows(),
            final(store).history_rows() == old(store).history_rows(),
            final(store).sort_setting_opt() == old(store).sort_setting_opt(),
    {
        let ghost same = |a: Registration, b: Registration| same_reg_key(a, b);
        let n = store.registrations.len();
        let mut i: usize = 0;
        while i < n
            invariant
                0 <= i <= n,
                n == store.reg_rows().len(),
                *store == *old(store),
                store.wf(),
                same == (|a: Registration, b: Registration| same_reg_key(a, b)),
                forall|j: int| 0 <= j < i ==> !same_reg_key(self, #[trigger] store.reg_rows()[j]),
            decreases n - i,
        {
            let hit = store.registrations[i].partition == self.partition;
            if hit {
                proof {
                    assert forall|j: int|
                        0 <= j < store.reg_rows().len() && j != i implies !same(
                        self,
                        #[trigger] store.reg_rows()[j],
                    ) by {
                        if j > i {
                            assert(!same_reg_key(store.reg_rows()[i as int], store.reg_rows()[j]));
                        }
                    }
                    lemma_key_idx(store.reg_rows(), self, same, i as int);
                }
                store.registrations[i] = self;
                return ;
            }
            i += 1;
        }
        proof {
            assert(!has_key(store.reg_rows(), self, same));
        }
        store.registrations.push(self);
    }
}

impl Token {
    /// Upserts this row; the last write per (partition, token type) wins.
    pub fn insert(self, store: &mut CacheStore)
        requires
            old(store).wf(),
        ensures
            final(store).wf(),
            final(store).token_rows() == spec_put_token(old(store).token_rows(), self),
            final(store).reg_rows() == old(store).reg_rows(),
            final(store).account_rows() == old(store).account_rows(),
            final(store).role_rows() == old(store).role_rows(),
            final(store).history_rows() == old(store).history_rows(),
            final(store).sort_setting_opt() == old(store).sort_setting_opt(),
    {
        let ghost same = |a: Token, b: Token| same_token_key(a, b);
        let n = store.tokens.len();
        let mut i: usize = 0;
        while i < n
            invariant
                0 <= i <= n,
                n == store.token_rows().len(),
                *store == *old(store),
                store.wf(),
                same == (|a: Token, b: Token| same_token_key(a, b)),
                forall|j: int| 0 <= j < i ==> !same_token_key(self, #[trigger] store.token_rows()[j]),
            decreases n - i,
        {
            let hit = store.tokens[i].partition == self.partition && store.tokens[i].token_type
                == self.token_type;
            if hit {
                proof {
                    assert forall|j: int|
                        0 <= j < store.token_rows().len() && j != i implies !same(
                        self,
                        #[trigger] store.token_rows()[j],
                    ) by {
                        if j > i {
                            assert(!same_token_key(store.token_rows()[i as int],
                                store.token_rows()[j]));
                        }
                    }
                    lemma_key_idx(store.token_rows(), self, same, i as int);
                }
                store.tokens[i] = self;
                return ;
            }
            i += 1;
        }
        proof {
            assert(!has_key(store.token_rows(), self, same));
        }
        store.tokens.push(self);
    }
}

/// The stored account row for one (partition, account id), if any.
pub open spec fn find_account(s: Seq<Account>, p: Seq<char>, aid: Seq<char>) -> Option<Account> {
    first_match(s, |a: Account| a.partition@ == p && a.account_id@ == aid)
}

impl Account {
    /// The stored row for this (partition, account id), if any.
    pub fn find(store: &CacheStore, partition: &String, account_id: &String) -> (r: Option<
        Account,
    >)
        ensures
            r == find_account(store.account_rows(), partition@, account_id@),
    {
        let ghost pred = |a: Account| a.partition@ == partition@ && a.account_id@ == account_id@;
        let n = store.accounts.len();
        let mut i: usize = 0;
        while i < n
            invariant
                0 <= i <= n,
                n == store.account_rows().len(),
                first_match(store.account_rows().take(i as int), pred) is None,
                pred == (|a: Account| a.partition@ == partition@ && a.account_id@ == account_id@),
            decreases n - i,
        {
            let row = &store.accounts[i];
            let hit = row.partition == *partition && row.account_id == *account_id;
            if hit {
                proof {
                    lemma_first_match_some_push(store.account_rows().take(i as int), pred,
                        store.account_rows()[i as int]);
                    assert(store.account_rows().take(i as int).push(
                        store.account_rows()[i as int],
                    ) =~= store.account_rows().take(i as int + 1));
                    lemma_first_match_take(store.account_rows(), pred, i as int + 1);
                }
                return Some(row.clone());
            }
            proof {
                lemma_first_match_none_push(store.account_rows().take(i as int), pred,
                    store.account_rows()[i as int]);
                assert(store.account_rows().take(i as int).push(store.account_rows()[i as int])
                    =~= store.account_rows().take(i as int + 1));
            }
            i += 1;
        }
        proof {
            assert(store.account_rows().take(n as int) =~= store.account_rows());
        }
        None
    }

    /// Upserts this row; the last write per (partition, account id) wins.
    pub fn insert(self, store: &mut CacheStore)
        requires
            old(store).wf(),
        ensures
            final(store).wf(),
            final(store).account_rows() == spec_put_account(old(store).account_rows(), self),
            final(store).reg_rows() == old(store).reg_rows(),
            final(store).token_rows() == old(store).token_rows(),
            final(store).role_rows() == old(store).role_rows(),
            final(store).history_rows() == old(store).history_rows(),
            final(store).sort_setting_opt() == old(store).sort_setting_opt(),
    {
        let ghost same = |a: Account, b: Account| same_account_key(a, b);
        let n = store.accounts.len();
        let mut i: usize = 0;
        while i < n
            invariant
                0 <= i <= n,
                n == store.account_rows().len(),
                *store == *old(store),
                store.wf(),
                same == (|a: Account, b: Account| same_account_key(a, b)),
                forall|j: int|
                    0 <= j < i ==> !same_account_key(self, #[trigger] store.account_rows()[j]),
            decreases n - i,
        {
            let hit = store.accounts[i].partition == self.partition && store.accounts[i].account_id
                == self.account_id;
            if hit {
                proof {
                    assert forall|j: int|
                        0 <= j < store.account_rows().len() && j != i implies !same(
                        self,
                        #[trigger] store.account_rows()[j],
                    ) by {
                        if j > i {
                            assert(!same_account_key(store.account_rows()[i as int],
                                store.account_rows()[j]));
                        }
                    }
                    lemma_key_idx(store.account_rows(), self, same, i as int);
                }
                store.accounts[i] = self;
                return ;
            }
            i += 1;
        }
        proof {
            assert(!has_key(store.account_rows(), self, same));
        }
        store.accounts.push(self);
    }
}

impl Role {
    /// Upserts this row; the last write per (partition, account id, role
    /// name) wins.
    pub fn insert(self, store: &mut CacheStore)
        requires
            old(store).wf(),
        ensures
            final(store).wf(),
            final(store).role_rows() == spec_put_role(old(store).role_rows(), self),
            final(store).reg_rows() == old(store).reg_rows(),
            final(store).token_rows() == old(store).token_rows(),
            final(store).account_rows() == old(store).account_rows(),
            final(store).history_rows() == old(store).history_rows(),
            final(store).sort_setting_opt() == old(store).sort_setting_opt(),
    {
        let ghost same = |a: Role, b: Role| same_role_key(a, b);
        let n = store.roles.len();
        let mut i: usize = 0;
        while i < n
            invariant
                0 <= i <= n,
                n == store.role_rows().len(),
                *store == *old(store),
                store.wf(),
                same == (|a: Role, b: Role| same_role_key(a, b)),
                forall|j: int| 0 <= j < i ==> !same_role_key(self, #[trigger] store.role_rows()[j]),
            decreases n - i,
        {
            let hit = store.roles[i].partition == self.partition && store.roles[i].account_id
                == self.account_id && store.roles[i].role_name == self.role_name;
            if hit {
                proof {
                    assert forall|j: int|
                        0 <= j < store.role_rows().len() && j != i implies !same(
                        self,
                        #[trigger] store.role_rows()[j],
                    ) by {
                        if j > i {
                            assert(!same_role_key(store.role_rows()[i as int],
                                store.role_rows()[j]));
                        }
                    }
                    lemma_key_idx(store.role_rows(), self, same, i as int);
                }
                store.roles[i] = self;
                return ;
            }
            i += 1;
        }
        proof {
            assert(!has_key(store.role_rows(), self, same));
        }
        store.roles.push(self);
    }
}

impl HistoryNew {
    /// Appends this entry to the history.
    pub fn insert(&self, store: &mut CacheStore)
        requires
            old(store).wf(),
        ensures
            final(store).wf(),
            final(store).history_rows() == old(store).history_rows().push(*self),
            final(store).reg_rows() == old(store).reg_rows(),
            final(store).token_rows() == old(store).token_rows(),
            final(store).account_rows() == old(store).account_rows(),
            final(store).role_rows() == old(store).role_rows(),
            final(store).sort_setting_opt() == old(store).sort_setting_opt(),
    {
        store.append_history(self.clone());
    }
}

impl SettingSort {
    /// The stored sort setting as its wire value: 0 for `ALPHA` (or unset),
    /// 1 for `FRECENCY`.
    pub fn get(store: &CacheStore) -> (r: i32)
        ensures
            r as int == sort_code(store.sort_setting_opt()),
    {
        match store.get_sort_order() {
            Some(SortOrder::FRECENCY) => 1,
            _ => 0,
        }
    }

    /// Stores this sort setting; the last write wins.
    pub fn insert(&self, store: &mut CacheStore)
        requires
            old(store).wf(),
        ensures
            final(store).wf(),
            final(store).sort_setting_opt() == Some(self.value),
            final(store).reg_rows() == old(store).reg_rows(),
            final(store).token_rows() == old(store).token_rows(),
            final(store).account_rows() == old(store).account_rows(),
            final(store).role_rows() == old(store).role_rows(),
            final(store).history_rows() == old(store).history_rows(),
    {
        store.set_sort_setting(self.value);
    }
}

impl CacheStore {
    /// The stored sort order, if any was set.
    pub fn get_sort_order(&self) -> (r: Option<SortOrder>)
        ensures
            r == self.sort_setting_opt(),
    {
        self.sort_setting
    }

    /// The stored history, oldest first.
    pub fn get_history(&self) -> (r: &Vec<HistoryNew>)
        ensures
            r@ == self.history_rows(),
    {
        &self.history
    }

    /// Every stored registration row, for persistence.
    pub fn get_registration_rows(&self) -> (r: &Vec<Registration>)
        ensures
            r@ == self.reg_rows(),
    {
        &self.registrations
    }

    /// Every stored token row, for persistence.
    pub fn get_token_rows(&self) -> (r: &Vec<Token>)
        ensures
            r@ == self.token_rows(),
    {
        &self.tokens
    }

    /// Every stored account row, for persistence.
    pub fn get_account_rows(&self) -> (r: &Vec<Account>)
        ensures
            r@ == self.account_rows(),
    {
        &self.accounts
    }

    /// Every stored role row, for persistence.
    pub fn get_role_rows(&self) -> (r: &Vec<Role>)
        ensures
            r@ == self.role_rows(),
    {
        &self.roles
    }
}

/// A sequence with no element satisfying `pred` filters to nothing.
proof fn lemma_filter_none<A>(s: Seq<A>, pred: spec_fn(A) -> bool)
    requires
        forall|j: int| 0 <= j < s.len() ==> !pred(#[trigger] s[j]),
    ensures
        s.filter(pred) =~= Seq::<A>::empty(),
    decreases s.len(),
{
    reveal(Seq::filter);
    if s.len() > 0 {
        lemma_filter_none(s.drop_last(), pred);
    }
}

/// A sequence whose only match is `e` at `k` filters to exactly `e`.
proof fn lemma_filter_single<A>(s: Seq<A>, pred: spec_fn(A) -> bool, k: int, e: A)
    requires
        0 <= k < s.len(),
        s[k] == e,
        pred(e),
        forall|j: int| 0 <= j < s.len() && j != k ==> !pred(#[trigger] s[j]),
    ensures
        s.filter(pred) =~= seq![e],
    decreases s.len(),
{
    reveal(Seq::filter);
    if k == s.len() - 1 {
        lemma_filter_none(s.drop_last(), pred);
    } else {
        lemma_filter_single(s.drop_last(), pred, k, e);
    }
}

/// Last write wins: upserting two registrations for the same partition,
/// one after the other, leaves exactly one stored row for that partition,
/// and it carries the second write's values.
pub proof fn lemma_registration_last_write_wins(
    regs: Seq<Registration>,
    r1: Registration,
    r2: Registration,
)
    requires
        unique_keys(regs, |a: Registration, b: Registration| same_reg_key(a, b)),
        r1.partition@ == r2.partition@,
    ensures
        registrations_for(
            spec_put_registration(spec_put_registration(regs, r1), r2),
            r2.partition@,
        ) =~= seq![r2],
{
    let p = r1.partition@;
    let same = |a: Registration, b: Registration| same_reg_key(a, b);
    let s1 = spec_put_registration(regs, r1);
    let s2 = spec_put_registration(s1, r2);
    let k: int = if has_key(regs, r1, same) {
        key_idx(regs, r1, same)
    } else {
        regs.len() as int
    };
    if has_key(regs, r1, same) {
        assert(0 <= k < regs.len() && same(r1, regs[k]));
        assert forall|j: int| 0 <= j < s1.len() && j != k implies (#[trigger] s1[j]).partition@
            != p by {
            if j < k {
                assert(!same_reg_key(regs[j], regs[k]));
            } else {
                assert(!same_reg_key(regs[k], regs[j]));
            }
        }
    } else {
        assert(s1 == regs.push(r1));
        assert forall|j: int| 0 <= j < s1.len() && j != k implies (#[trigger] s1[j]).partition@
            != p by {
            assert(!same(r1, regs[j]));
        }
    }
    assert(s1[k] == r1);
    assert(same(r2, s1[k]));
    lemma_key_idx(s1, r2, same, k);
    assert(s2 == s1.update(k, r2));
    assert forall|j: int| 0 <= j < s2.len() && j != k implies !((#[trigger] s2[j]).partition@
        == p) by {
        assert(s2[j] == s1[j]);
    }
    lemma_filter_single(s2, |r: Registration| r.partition@ == p, k, r2);
    assert((|r: Registration| r.partition@ == p) == (|r: Registration| r.partition@
        == r2.partition@)) by {
        assert(p == r2.partition@);
    }
}

/// Once a token with a future expiry is stored, the short-circuit premise
/// of the session machine holds: the store answers that a valid token
/// exists, so every later step reports `Ready`, whatever the event and
/// whatever state the machine was in.
pub proof fn lemma_put_token_short_circuit(toks: Seq<Token>, row: Token, now: int)
    requires
        row.expires_at > now,
    ensures
        has_valid_token(spec_put_token(toks, row), row.partition@, now),
{
    let same = |a: Token, b: Token| same_token_key(a, b);
    let s2 = spec_put_token(toks, row);
    if has_key(toks, row, same) {
        let k = key_idx(toks, row, same);
        assert(0 <= k < toks.len() && same(row, toks[k]));
        assert(s2[k] == row);
        assert(token_live(s2[k], row.partition@, now));
    } else {
        assert(s2[toks.len() as int] == row);
        assert(token_live(s2[toks.len() as int], row.partition@, now));
    }
}

/// The sort order a wire value names: 0 is `ALPHA`, 1 is `FRECENCY`, and
/// anything else is rejected.
pub fn sort_order_from_code(code: i32) -> (r: Option<SortOrder>)
    ensures
        code == 0 ==> r == Some(SortOrder::ALPHA),
        code == 1 ==> r == Some(SortOrder::FRECENCY),
        code != 0 && code != 1 ==> r is None,
{
    if code == 0 {
        Some(SortOrder::ALPHA)
    } else if code == 1 {
        Some(SortOrder::FRECENCY)
    } else {
        None
    }
}

} // verus!
