//! Directory listings and credential fetch: decide from the cache whether
//! the directory client must be called, and store what it answered.
//!
//! Accounts stay fresh for five hours, judged by the oldest row of the
//! partition; once any role rows exist for an account they are served
//! forever without a re-fetch. The caller performs the network calls; the
//! functions here only decide and record.

use vstd::prelude::*;

use crate::config::Aliases;
use crate::domain::{AccountInfo, RoleInfo};
use crate::frecency::{spec_rank, spec_score};
use crate::store::{
    accounts_for, find_valid_token, has_valid_token, roles_for, same_but_accounts, same_but_roles,
    spec_put_accounts, spec_put_roles, Account, CacheStore, Role, ACCOUNT_FRESH_WINDOW_MS,
};

verus! {

/// Every row was updated within the freshness window before `now`, and
/// there is at least one row. Because this quantifies over all rows, it is
/// exactly "the oldest row is younger than the window".
pub open spec fn accounts_fresh(accs: Seq<Account>, now: int) -> bool {
    accs.len() > 0 && forall|i: int|
        0 <= i < accs.len() ==> (#[trigger] accs[i]).updated_at + ACCOUNT_FRESH_WINDOW_MS > now
}

/// What a caller must do to list accounts.
pub enum AccountsPlan {
    /// Serve these cached rows; the directory client is not called.
    Cached(Vec<Account>),
    /// Call the directory's list-accounts operation with this token, then
    /// record the answer with `store_fetched_accounts`.
    Refresh { access_token: String },
}

/// Decides a list-accounts request from the cache alone: fresh rows are
/// served as they are; stale or missing rows ask for a refresh when a
/// valid token exists, and are served as they are when none does.
pub fn plan_list_accounts(store: &CacheStore, partition_slug: &String, now_ms: i64) -> (r:
    AccountsPlan)
    requires
        0 <= now_ms,
    ensures
        ({
            let cached = accounts_for(store.account_rows(), partition_slug@);
            let fresh = accounts_fresh(cached, now_ms as int);
            let hvt = has_valid_token(store.token_rows(), partition_slug@, now_ms as int);
            &&& fresh ==> (r matches AccountsPlan::Cached(v) && v@ == cached)
            &&& !fresh && !hvt ==> (r matches AccountsPlan::Cached(v) && v@ == cached)
            &&& !fresh && hvt ==> (r matches AccountsPlan::Refresh { access_token } && access_token
                == find_valid_token(
                store.token_rows(),
                partition_slug@,
                now_ms as int,
            )->Some_0.access_token)
        }),
{
    let cached = store.get_accounts(partition_slug);
    let n = cached.len();
    let mut all_fresh = n > 0;
    let mut i: usize = 0;
    while i < n
        invariant
            0 <= i <= n,
            0 <= now_ms,
            n == cached@.len(),
            all_fresh == (n > 0 && forall|j: int|
                0 <= j < i ==> (#[trigger] cached@[j]).updated_at + ACCOUNT_FRESH_WINDOW_MS
                    > now_ms),
        decreases n - i,
    {
        if cached[i].updated_at <= now_ms - ACCOUNT_FRESH_WINDOW_MS {
            all_fresh = false;
        }
        i += 1;
    }
    if all_fresh {
        return AccountsPlan::Cached(cached);
    }
    match store.get_valid_token(partition_slug, now_ms) {
        None => AccountsPlan::Cached(cached),
        Some(t) => AccountsPlan::Refresh { access_token: t.access_token },
    }
}

/// One account row as the directory client reports it.
pub struct FetchedAccount {
    pub account_id: String,
    pub account_name: String,
    pub email_address: String,
}

/// Records a directory answer: every fetched account is upserted for the
/// partition, stamped `now_ms`. Returns the stored rows.
pub fn store_fetched_accounts(
    store: &mut CacheStore,
    partition_slug: &String,
    fetched: Vec<FetchedAccount>,
    now_ms: i64,
) -> (r: Vec<Account>)
    requires
        old(store).wf(),
    ensures
        final(store).wf(),
        same_but_accounts(*old(store), *final(store)),
        final(store).account_rows() == spec_put_accounts(old(store).account_rows(), r@),
        r@.len() == fetched@.len(),
        forall|i: int|
            0 <= i < r@.len() ==> {
                &&& (#[trigger] r@[i]).partition == partition_slug
                &&& r@[i].account_id == fetched@[i].account_id
                &&& r@[i].account_name == fetched@[i].account_name
                &&& r@[i].email_address == fetched@[i].email_address
                &&& r@[i].updated_at == now_ms
            },
{
    let mut rows: Vec<Account> = Vec::new();
    let n = fetched.len();
    let mut i: usize = 0;
    while i < n
        invariant
            0 <= i <= n,
            n == fetched@.len(),
            rows@.len() == i,
            forall|j: int|
                0 <= j < i ==> {
                    &&& (#[trigger] rows@[j]).partition == partition_slug
                    &&& rows@[j].account_id == fetched@[j].account_id
                    &&& rows@[j].account_name == fetched@[j].account_name
                    &&& rows@[j].email_address == fetched@[j].email_address
                    &&& rows@[j].updated_at == now_ms
                },
        decreases n - i,
    {
        let f = &fetched[i];
        rows.push(
            Account {
                partition: partition_slug.clone(),
                account_id: f.account_id.clone(),
                account_name: f.account_name.clone(),
                email_address: f.email_address.clone(),
                updated_at: now_ms,
            },
        );
        i += 1;
    }
    store.put_accounts(&rows);
    rows
}

/// What a caller must do to list an account's roles.
pub enum RolesPlan {
    /// Serve these cached rows; once present they are never re-fetched.
    Cached(Vec<Role>),
    /// Call the directory's list-roles operation with this token, then
    /// record the answer with `store_fetched_roles`.
    Refresh { access_token: String },
    /// Nothing is cached and no valid token exists; serve nothing.
    NoToken,
}

/// Decides a list-roles request from the cache alone. Cached rows are
/// served whatever their age; only an empty cache asks the directory, and
/// only when a valid token exists.
pub fn plan_list_roles(
    store: &CacheStore,
    partition_slug: &String,
    account_id: &String,
    now_ms: i64,
) -> (r: RolesPlan)
    ensures
        ({
            let cached = roles_for(store.role_rows(), partition_slug@, account_id@);
            let hvt = has_valid_token(store.token_rows(), partition_slug@, now_ms as int);
            &&& cached.len() > 0 ==> (r matches RolesPlan::Cached(v) && v@ == cached)
            &&& cached.len() == 0 && !hvt ==> r is NoToken
            &&& cached.len() == 0 && hvt ==> (r matches RolesPlan::Refresh { access_token }
                && access_token == find_valid_token(
                store.token_rows(),
                partition_slug@,
                now_ms as int,
            )->Some_0.access_token)
        }),
{
    let cached = store.get_roles(partition_slug, account_id);
    if cached.len() > 0 {
        return RolesPlan::Cached(cached);
    }
    match store.get_valid_token(partition_slug, now_ms) {
        None => RolesPlan::NoToken,
        Some(t) => RolesPlan::Refresh { access_token: t.access_token },
    }
}

/// Records a directory answer: every fetched role name is upserted for the
/// (partition, account) pair, stamped `now_ms`. Returns the stored rows.
pub fn store_fetched_roles(
    store: &mut CacheStore,
    partition_slug: &String,
    account_id: &String,
    role_names: Vec<String>,
    now_ms: i64,
) -> (r: Vec<Role>)
    requires
        old(store).wf(),
    ensures
        final(store).wf(),
        same_but_roles(*old(store), *final(store)),
        final(store).role_rows() == spec_put_roles(old(store).role_rows(), r@),
        r@.len() == role_names@.len(),
        forall|i: int|
            0 <= i < r@.len() ==> {
                &&& (#[trigger] r@[i]).partition == partition_slug
                &&& r@[i].account_id == account_id
                &&& r@[i].role_name == role_names@[i]
                &&& r@[i].updated_at == now_ms
            },
{
    let mut rows: Vec<Role> = Vec::new();
    let n = role_names.len();
    let mut i: usize = 0;
    while i < n
        invariant
            0 <= i <= n,
            n == role_names@.len(),
            rows@.len() == i,
            forall|j: int|
                0 <= j < i ==> {
                    &&& (#[trigger] rows@[j]).partition == partition_slug
                    &&& rows@[j].account_id == account_id
                    &&& rows@[j].role_name == role_names@[j]
                    &&& rows@[j].updated_at == now_ms
                },
        decreases n - i,
    {
        rows.push(
            Role {
                partition: partition_slug.clone(),
                account_id: account_id.clone(),
                role_name: role_names[i].clone(),
                updated_at: now_ms,
            },
        );
        i += 1;
    }
    store.put_roles(&rows);
    rows
}

/// Dresses account rows for a consumer: each row keeps its fields and
/// gains the alias stored for its email, and its usage rank.
pub fn account_infos(
    store: &CacheStore,
    aliases: &Aliases,
    partition_slug: &String,
    accounts: &Vec<Account>,
) -> (r: Vec<AccountInfo>)
    requires
        store.history_rows().len() < i64::MAX,
    ensures
        r@.len() == accounts@.len(),
        forall|i: int|
            0 <= i < r@.len() ==> {
                let a = accounts@[i];
                let inf = #[trigger] r@[i];
                &&& inf.account_id == a.account_id
                &&& inf.account_name == a.account_name
                &&& inf.email_address == a.email_address
                &&& match (inf.alias, Aliases::spec_lookup(aliases.accounts@, a.email_address@)) {
                    (Some(x), Some(y)) => x@ == y,
                    (None, None) => true,
                    _ => false,
                }
                &&& (inf.score is Some <==> spec_score(
                    store.history_rows(),
                    partition_slug@,
                    a.account_id@,
                ) is Some)
                &&& (inf.score matches Some(v) ==> v as int == spec_rank(
                    store.history_rows(),
                    partition_slug@,
                    a.account_id@,
                ))
            },
{
    let mut out: Vec<AccountInfo> = Vec::new();
    let n = accounts.len();
    let mut i: usize = 0;
    while i < n
        invariant
            0 <= i <= n,
            n == accounts@.len(),
            out@.len() == i,
            store.history_rows().len() < i64::MAX,
            forall|j: int|
                0 <= j < i ==> {
                    let a = accounts@[j];
                    let inf = #[trigger] out@[j];
                    &&& inf.account_id == a.account_id
                    &&& inf.account_name == a.account_name
                    &&& inf.email_address == a.email_address
                    &&& match (
                        inf.alias,
                        Aliases::spec_lookup(aliases.accounts@, a.email_address@),
                    ) {
                        (Some(x), Some(y)) => x@ == y,
                        (None, None) => true,
                        _ => false,
                    }
                    &&& (inf.score is Some <==> spec_score(
                        store.history_rows(),
                        partition_slug@,
                        a.account_id@,
                    ) is Some)
                    &&& (inf.score matches Some(v) ==> v as int == spec_rank(
                        store.history_rows(),
                        partition_slug@,
                        a.account_id@,
                    ))
                },
        decreases n - i,
    {
        let a = &accounts[i];
        let mut inf = a.as_info();
        inf.alias = aliases.map_account(a.email_address.clone());
        inf.score = crate::frecency::score(store, partition_slug, &a.account_id);
        out.push(inf);
        i += 1;
    }
    out
}

/// Dresses role rows for a consumer: each row keeps its fields and gains
/// the alias stored for its role name (the name itself when none is).
pub fn role_infos(aliases: &Aliases, roles: &Vec<Role>) -> (r: Vec<RoleInfo>)
    ensures
        r@.len() == roles@.len(),
        forall|i: int|
            0 <= i < r@.len() ==> {
                let rr = roles@[i];
                let inf = #[trigger] r@[i];
                &&& inf.role_name == rr.role_name
                &&& inf.account_id == rr.account_id
                &&& inf.partition == rr.partition
                &&& inf.alias matches Some(x) && x@ == match Aliases::spec_lookup(
                    aliases.roles@,
                    rr.role_name@,
                ) {
                    Some(y) => y,
                    None => rr.role_name@,
                }
            },
{
    let mut out: Vec<RoleInfo> = Vec::new();
    let n = roles.len();
    let mut i: usize = 0;
    while i < n
        invariant
            0 <= i <= n,
            n == roles@.len(),
            out@.len() == i,
            forall|j: int|
                0 <= j < i ==> {
                    let rr = roles@[j];
                    let inf = #[trigger] out@[j];
                    &&& inf.role_name == rr.role_name
                    &&& inf.account_id == rr.account_id
                    &&& inf.partition == rr.partition
                    &&& inf.alias matches Some(x) && x@ == match Aliases::spec_lookup(
                        aliases.roles@,
                        rr.role_name@,
                    ) {
                        Some(y) => y,
                        None => rr.role_name@,
                    }
                },
        decreases n - i,
    {
        let rr = &roles[i];
        let alias = aliases.map_role(rr.role_name.clone());
        out.push(
            RoleInfo {
                role_name: rr.role_name.clone(),
                alias: Some(alias),
                account_id: rr.account_id.clone(),
                partition: rr.partition.clone(),
            },
        );
        i += 1;
    }
    out
}

/// Which class of error a directory listing failed with.
pub enum RoleListError {
    /// The provider asked for a slower pace; retrying can succeed.
    RateLimited,
    /// Any other error; the listing gives up and serves what it has.
    Other,
}

/// A bounded retry: at most `max_attempts` tries, a fixed pause between
/// them.
pub struct RetryPolicy {
    pub max_attempts: u32,
    pub delay_ms: u64,
}

impl RetryPolicy {
    /// The policy role listings use: ten attempts, 750 milliseconds apart.
    pub fn for_list_roles() -> (r: RetryPolicy)
        ensures
            r.max_attempts == 10,
            r.delay_ms == 750,
    {
        RetryPolicy { max_attempts: 10, delay_ms: 750 }
    }

    /// Whether to try again after `attempts_made` failed attempts: only a
    /// rate-limit answer is retried, and only while attempts remain.
    pub fn should_retry(&self, attempts_made: u32, error: &RoleListError) -> (r: bool)
        ensures
            r == (error is RateLimited && attempts_made < self.max_attempts),
    {
        match error {
            RoleListError::RateLimited => attempts_made < self.max_attempts,
            RoleListError::Other => false,
        }
    }
}

/// Short-lived credentials for one account and role, as handed to callers.
pub struct Credentials {
    pub access_key_id: String,
    pub secret_access_key: String,
    pub session_token: String,
    pub expires_at: i64,
}

impl Clone for Credentials {
    fn clone(&self) -> (r: Self)
        ensures
            r == *self,
    {
        Credentials {
            access_key_id: self.access_key_id.clone(),
            secret_access_key: self.secret_access_key.clone(),
            session_token: self.session_token.clone(),
            expires_at: self.expires_at,
        }
    }
}

/// Why a credential fetch cannot proceed.
#[derive(PartialEq, Eq, Structural, Clone, Copy, Debug)]
pub enum CredentialsError {
    /// No valid token is cached; the caller must re-run the authorization
    /// flow.
    MissingToken,
}

/// The access token a credential fetch must present, or `MissingToken`
/// when no valid token is cached. Issued credentials are never cached;
/// every fetch calls the directory afresh with this token.
pub fn plan_get_credentials(store: &CacheStore, partition_slug: &String, now_ms: i64) -> (r: Result<
    String,
    CredentialsError,
>)
    ensures
        r is Ok <==> has_valid_token(store.token_rows(), partition_slug@, now_ms as int),
        r matches Ok(tok) ==> tok == find_valid_token(
            store.token_rows(),
            partition_slug@,
            now_ms as int,
        )->Some_0.access_token,
        r is Err ==> r == Err::<String, CredentialsError>(CredentialsError::MissingToken),
{
    match store.get_valid_token(partition_slug, now_ms) {
        None => Err(CredentialsError::MissingToken),
        Some(t) => Ok(t.access_token),
    }
}

} // verus!
