//! Cross-cutting domain values: the client name sent with registration
//! requests, and the account/role shapes handed to consumers.

use vstd::prelude::*;
use vstd::string::*;

use crate::store::{Account, Role};

verus! {

/// Relies on whoami::platform: the host platform, as display text. The
/// result depends on the machine, so nothing is promised of it.
#[verifier::external_body]
fn whoami_platform() -> String {
    whoami::platform().to_string()
}

/// Relies on whoami::username: the login name of the current user. The
/// result depends on the machine, so nothing is promised of it.
#[verifier::external_body]
fn whoami_username() -> String {
    match whoami::username() {
        Ok(name) => name,
        Err(_) => String::from("unknown"),
    }
}

/// Relies on whoami::hostname: the host name. The result depends on the
/// machine, so nothing is promised of it.
#[verifier::external_body]
fn whoami_hostname() -> String {
    match whoami::hostname() {
        Ok(name) => name,
        Err(_) => String::from("unknown"),
    }
}

/// The client name built from its parts:
/// `"{platform} arsd {username}@{hostname}"`.
pub open spec fn spec_client_name(platform: Seq<char>, username: Seq<char>, hostname: Seq<char>) -> Seq<
    char,
> {
    platform + " arsd "@ + username + "@"@ + hostname
}

/// Formats the client name from its parts.
pub fn client_name_from(platform: &str, username: &str, hostname: &str) -> (r: String)
    ensures
        r@ == spec_client_name(platform@, username@, hostname@),
{
    let mut out = platform.to_owned();
    out.append(" arsd ");
    out.append(username);
    out.append("@");
    out.append(hostname);
    proof {
        assert(out@ =~= spec_client_name(platform@, username@, hostname@));
    }
    out
}

/// The client name this machine registers under. Its parts come from the
/// host environment, so nothing is promised of the result.
pub fn client_name() -> String {
    let platform = whoami_platform();
    let username = whoami_username();
    let hostname = whoami_hostname();
    client_name_from(platform.as_str(), username.as_str(), hostname.as_str())
}

/// An account as handed to consumers, with its optional alias and rank.
pub struct AccountInfo {
    pub account_id: String,
    pub account_name: String,
    pub email_address: String,
    pub alias: Option<String>,
    pub score: Option<i64>,
}

impl Clone for AccountInfo {
    fn clone(&self) -> (r: Self)
        ensures
            r == *self,
    {
        AccountInfo {
            account_id: self.account_id.clone(),
            account_name: self.account_name.clone(),
            email_address: self.email_address.clone(),
            alias: match &self.alias {
                Some(a) => Some(a.clone()),
                None => None,
            },
            score: self.score,
        }
    }
}

/// A role as handed to consumers, with its optional alias.
pub struct RoleInfo {
    pub account_id: String,
    pub role_name: String,
    pub partition: String,
    pub alias: Option<String>,
}

impl Clone for RoleInfo {
    fn clone(&self) -> (r: Self)
        ensures
            r == *self,
    {
        RoleInfo {
            account_id: self.account_id.clone(),
            role_name: self.role_name.clone(),
            partition: self.partition.clone(),
            alias: match &self.alias {
                Some(a) => Some(a.clone()),
                None => None,
            },
        }
    }
}

impl Account {
    /// This row as a consumer-facing account, with no alias or rank filled
    /// in yet.
    pub fn as_info(&self) -> (r: AccountInfo)
        ensures
            r.account_id == self.account_id,
            r.account_name == self.account_name,
            r.email_address == self.email_address,
            r.alias is None,
            r.score is None,
    {
        AccountInfo {
            account_id: self.account_id.clone(),
            account_name: self.account_name.clone(),
            email_address: self.email_address.clone(),
            alias: None,
            score: None,
        }
    }
}

impl Role {
    /// A role row built from a consumer-facing role, stamped `updated_at_ms`.
    pub fn from_info(info: RoleInfo, updated_at_ms: i64) -> (r: Role)
        ensures
            r.partition == info.partition,
            r.account_id == info.account_id,
            r.role_name == info.role_name,
            r.updated_at == updated_at_ms,
    {
        Role {
            partition: info.partition,
            account_id: info.account_id,
            role_name: info.role_name,
            updated_at: updated_at_ms,
        }
    }

    /// This row as a consumer-facing role, with no alias filled in yet.
    pub fn as_info(self) -> (r: RoleInfo)
        ensures
            r.partition == self.partition,
            r.account_id == self.account_id,
            r.role_name == self.role_name,
            r.alias is None,
    {
        RoleInfo {
            partition: self.partition,
            account_id: self.account_id,
            role_name: self.role_name,
            alias: None,
        }
    }
}

} // verus!
