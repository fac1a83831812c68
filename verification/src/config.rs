//! Partition identity: the identity-provider endpoint description and its
//! canonical cache key (the "slug").
//!
//! A partition's `start_url` must have the exact shape
//! `https://<name>.awsapps.com/start#`, where `<name>` is a non-empty
//! subdomain containing no `/`. The slug is `"{region}-{name}"`.

use vstd::prelude::*;
use vstd::string::*;

use crate::util::{ends_with, first_match, has_prefix, has_suffix, lemma_suffix_trans, starts_with};

verus! {

/// Why a start URL was rejected at configuration-load time.
#[derive(PartialEq, Eq, Structural, Clone, Copy, Debug)]
pub enum ConfigError {
    /// The URL does not begin with `https://`.
    WrongScheme,
    /// The URL ends with `/start#` but not with `.awsapps.com/start#`,
    /// or the subdomain is empty or contains a path separator.
    WrongDomain,
    /// The URL does not end with `/start#`.
    MissingTrailer,
    /// More than one partition was configured.
    TooManyPartitions,
}

pub open spec fn scheme_prefix() -> Seq<char> {
    "https://"@
}

pub open spec fn domain_suffix() -> Seq<char> {
    ".awsapps.com/start#"@
}

pub open spec fn trailer_suffix() -> Seq<char> {
    "/start#"@
}

/// The domain suffix itself ends in the trailer.
proof fn lemma_domain_has_trailer()
    ensures
        has_suffix(domain_suffix(), trailer_suffix()),
{
    reveal_strlit(".awsapps.com/start#");
    reveal_strlit("/start#");
    assert(domain_suffix().subrange(12, 19) =~= trailer_suffix());
}

/// The subdomain between the scheme and the domain suffix.
pub open spec fn url_name(s: Seq<char>) -> Seq<char> {
    s.subrange(scheme_prefix().len() as int, s.len() - domain_suffix().len())
}

/// The exact shape a start URL must have.
pub open spec fn valid_start_url(s: Seq<char>) -> bool {
    &&& s.len() > scheme_prefix().len() + domain_suffix().len()
    &&& has_prefix(s, scheme_prefix())
    &&& has_suffix(s, domain_suffix())
    &&& forall|i: int|
        scheme_prefix().len() <= i < s.len() - domain_suffix().len() ==> s[i] != '/'
}

/// The canonical cache key of a partition: `"{region}-{name}"`.
pub open spec fn spec_slug(region: Seq<char>, start_url: Seq<char>) -> Seq<char> {
    region + "-"@ + url_name(start_url)
}

/// Extracts the subdomain of a start URL, or says exactly why it is rejected.
pub fn parse_start_url(s: &str) -> (r: Result<String, ConfigError>)
    ensures
        r is Ok <==> valid_start_url(s@),
        r is Ok ==> r->Ok_0@ == url_name(s@),
        r == Result::<String, ConfigError>::Err(ConfigError::WrongScheme) <==> !has_prefix(
            s@,
            scheme_prefix(),
        ),
        r == Result::<String, ConfigError>::Err(ConfigError::MissingTrailer) <==> (has_prefix(
            s@,
            scheme_prefix(),
        ) && !has_suffix(s@, trailer_suffix())),
{
    proof {
        reveal_strlit("https://");
        reveal_strlit(".awsapps.com/start#");
        reveal_strlit("/start#");
    }
    if !starts_with(s, "https://") {
        return Err(ConfigError::WrongScheme);
    }
    if !ends_with(s, "/start#") {
        proof {
            if has_suffix(s@, domain_suffix()) {
                lemma_domain_has_trailer();
                lemma_suffix_trans(s@, domain_suffix(), trailer_suffix());
            }
        }
        return Err(ConfigError::MissingTrailer);
    }
    if !ends_with(s, ".awsapps.com/start#") {
        return Err(ConfigError::WrongDomain);
    }
    let n = s.unicode_len();
    if n < 28 {
        assert(!valid_start_url(s@));
        return Err(ConfigError::WrongDomain);
    }
    // scan the subdomain for a path separator
    let mut i: usize = 8;
    while i < n - 19
        invariant
            8 <= i <= n - 19,
            n == s@.len(),
            n >= 28,
            has_prefix(s@, scheme_prefix()),
            has_suffix(s@, domain_suffix()),
            has_suffix(s@, trailer_suffix()),
            forall|j: int| 8 <= j < i ==> s@[j] != '/',
        decreases n - 19 - i,
    {
        proof {
            reveal_strlit("https://");
            reveal_strlit(".awsapps.com/start#");
        }
        if s.get_char(i) == '/' {
            return Err(ConfigError::WrongDomain);
        }
        i += 1;
    }
    let name = s.substring_char(8, n - 19);
    assert(name@ =~= url_name(s@));
    Ok(name.to_owned())
}

/// One identity-provider instance the user can authenticate against.
pub struct Partition {
    pub start_url: String,
    pub account_id: Option<String>,
    pub region: String,
}

impl Clone for Partition {
    fn clone(&self) -> (r: Self)
        ensures
            r == *self,
    {
        Partition {
            start_url: self.start_url.clone(),
            account_id: match &self.account_id {
                Some(a) => Some(a.clone()),
                None => None,
            },
            region: self.region.clone(),
        }
    }
}

impl Partition {
    /// Whether this partition's start URL is well-formed.
    pub open spec fn wf(&self) -> bool {
        valid_start_url(self.start_url@)
    }

    /// The slug of a well-formed partition, at the specification level.
    pub open spec fn spec_slug(&self) -> Seq<char> {
        spec_slug(self.region@, self.start_url@)
    }

    /// The OAuth scopes requested for this partition.
    pub fn scopes(&self) -> (r: Vec<String>)
        ensures
            r@.len() == 1,
            r@[0]@ == "sso:account:access"@,
    {
        let mut v: Vec<String> = Vec::new();
        v.push(String::from_str("sso:account:access"));
        v
    }

    /// The canonical cache key `"{region}-{name}"` of this partition.
    pub fn slug(&self) -> (r: String)
        requires
            self.wf(),
        ensures
            r@ == self.spec_slug(),
    {
        proof {
            reveal_strlit("https://");
            reveal_strlit(".awsapps.com/start#");
        }
        let mut out = self.region.clone();
        out.append("-");
        let n = self.start_url.as_str().unicode_len();
        let name = self.start_url.as_str().substring_char(8, n - 19);
        out.append(name);
        proof {
            assert(name@ =~= url_name(self.start_url@));
            assert(out@ =~= self.spec_slug());
        }
        out
    }

    /// The slug, or the reason the start URL is rejected.
    pub fn try_slug(&self) -> (r: Result<String, ConfigError>)
        ensures
            r is Ok <==> self.wf(),
            r is Ok ==> r->Ok_0@ == self.spec_slug(),
    {
        match parse_start_url(self.start_url.as_str()) {
            Ok(_) => Ok(self.slug()),
            Err(e) => Err(e),
        }
    }

    /// Returns the start URL unchanged when it is well-formed, else the
    /// reason it is rejected.
    pub fn sso_start_url(&self) -> (r: Result<String, ConfigError>)
        ensures
            r is Ok <==> self.wf(),
            r is Ok ==> r->Ok_0@ == self.start_url@,
    {
        match parse_start_url(self.start_url.as_str()) {
            Ok(_) => Ok(self.start_url.clone()),
            Err(e) => Err(e),
        }
    }
}

/// Alias tables: display names for accounts (keyed by email) and roles
/// (keyed by role name).
pub struct Aliases {
    pub accounts: Vec<(String, String)>,
    pub roles: Vec<(String, String)>,
}

impl Aliases {
    /// The alias stored for `key` in `table`, if any.
    pub open spec fn spec_lookup(table: Seq<(String, String)>, key: Seq<char>) -> Option<
        Seq<char>,
    > {
        match first_match(table, |p: (String, String)| p.0@ == key) {
            Some(p) => Some(p.1@),
            None => None,
        }
    }

    /// The alias for a role name, or the role name itself when none is stored.
    pub fn map_role(&self, role_name: String) -> (r: String)
        ensures
            r@ == match Self::spec_lookup(self.roles@, role_name@) {
                Some(a) => a,
                None => role_name@,
            },
    {
        let mut i: usize = 0;
        let n = self.roles.len();
        while i < n
            invariant
                0 <= i <= n,
                n == self.roles@.len(),
                first_match(self.roles@.take(i as int), |p: (String, String)| p.0@ == role_name@)
                    is None,
            decreases n - i,
        {
            let ghost pred = |p: (String, String)| p.0@ == role_name@;
            if self.roles[i].0 == role_name {
                proof {
                    lemma_first_match_found(self.roles@, pred, i as int);
                }
                return self.roles[i].1.clone();
            }
            proof {
                crate::util::lemma_first_match_none_push(
                    self.roles@.take(i as int),
                    pred,
                    self.roles@[i as int],
                );
                assert(self.roles@.take(i as int).push(self.roles@[i as int]) =~= self.roles@.take(
                    i as int + 1,
                ));
            }
            i += 1;
        }
        proof {
            assert(self.roles@.take(n as int) =~= self.roles@);
        }
        role_name
    }

    /// The alias for an account email, if one is stored.
    pub fn map_account(&self, account_email: String) -> (r: Option<String>)
        ensures
            match (r, Self::spec_lookup(self.accounts@, account_email@)) {
                (Some(a), Some(b)) => a@ == b,
                (None, None) => true,
                _ => false,
            },
    {
        let mut i: usize = 0;
        let n = self.accounts.len();
        while i < n
            invariant
                0 <= i <= n,
                n == self.accounts@.len(),
                first_match(
                    self.accounts@.take(i as int),
                    |p: (String, String)| p.0@ == account_email@,
                ) is None,
            decreases n - i,
        {
            let ghost pred = |p: (String, String)| p.0@ == account_email@;
            if self.accounts[i].0 == account_email {
                proof {
                    lemma_first_match_found(self.accounts@, pred, i as int);
                }
                return Some(self.accounts[i].1.clone());
            }
            proof {
                crate::util::lemma_first_match_none_push(
                    self.accounts@.take(i as int),
                    pred,
                    self.accounts@[i as int],
                );
                assert(self.accounts@.take(i as int).push(self.accounts@[i as int])
                    =~= self.accounts@.take(i as int + 1));
            }
            i += 1;
        }
        proof {
            assert(self.accounts@.take(n as int) =~= self.accounts@);
        }
        None
    }
}

/// A prefix with no hit followed by a hit at `i` makes `s[i]` the first match.
proof fn lemma_first_match_found<A>(s: Seq<A>, pred: spec_fn(A) -> bool, i: int)
    requires
        0 <= i < s.len(),
        first_match(s.take(i), pred) is None,
        pred(s[i]),
    ensures
        first_match(s, pred) == Some(s[i]),
{
    crate::util::lemma_first_match_some_push(s.take(i), pred, s[i]);
    assert(s.take(i).push(s[i]) =~= s.take(i + 1));
    crate::util::lemma_first_match_take(s, pred, i + 1);
}

/// The slug is a function of the partition's region and start URL alone:
/// equal endpoint descriptions always land in the same cache partition.
pub proof fn lemma_slug_deterministic(a: Partition, b: Partition)
    requires
        a.region@ == b.region@,
        a.start_url@ == b.start_url@,
    ensures
        a.spec_slug() == b.spec_slug(),
{
}

/// One partition as shown to the user, with its derived slug.
pub struct PartitionDisplay {
    pub start_url: String,
    pub account_id: Option<String>,
    pub region: String,
    pub slug: String,
}

/// The loaded configuration: where it came from, the partitions it names,
/// and the alias tables.
pub struct Settings {
    pub path: String,
    pub partitions: Vec<Partition>,
    pub aliases: Aliases,
}

impl Settings {
    /// All configured partitions are well-formed and at most one is present.
    pub open spec fn wf(&self) -> bool {
        &&& forall|i: int| 0 <= i < self.partitions@.len() ==> (#[trigger] self.partitions@[i]).wf()
        &&& self.partitions@.len() <= 1
    }

    /// Checks the loaded partitions: every start URL must be well-formed and
    /// at most one partition may be configured.
    pub fn validate(&self) -> (r: Result<(), ConfigError>)
        ensures
            r is Ok <==> self.wf(),
            self.partitions@.len() > 1 ==> r == Err::<(), ConfigError>(
                ConfigError::TooManyPartitions,
            ),
    {
        if self.partitions.len() > 1 {
            return Err(ConfigError::TooManyPartitions);
        }
        let mut i: usize = 0;
        let n = self.partitions.len();
        while i < n
            invariant
                0 <= i <= n,
                n == self.partitions@.len(),
                n <= 1,
                forall|j: int| 0 <= j < i ==> (#[trigger] self.partitions@[j]).wf(),
            decreases n - i,
        {
            match parse_start_url(self.partitions[i].start_url.as_str()) {
                Ok(_) => {},
                Err(e) => {
                    return Err(e);
                },
            }
            i += 1;
        }
        Ok(())
    }

    /// Every configured partition with its slug, for display.
    pub fn partition_displays(&self) -> (r: Vec<PartitionDisplay>)
        requires
            self.wf(),
        ensures
            r@.len() == self.partitions@.len(),
            forall|i: int|
                0 <= i < r@.len() ==> {
                    let c = self.partitions@[i];
                    let d = #[trigger] r@[i];
                    &&& d.start_url == c.start_url
                    &&& d.account_id == c.account_id
                    &&& d.region == c.region
                    &&& d.slug@ == c.spec_slug()
                },
    {
        let mut out: Vec<PartitionDisplay> = Vec::new();
        let n = self.partitions.len();
        let mut i: usize = 0;
        while i < n
            invariant
                0 <= i <= n,
                n == self.partitions@.len(),
                self.wf(),
                out@.len() == i,
                forall|j: int|
                    0 <= j < i ==> {
                        let c = self.partitions@[j];
                        let d = #[trigger] out@[j];
                        &&& d.start_url == c.start_url
                        &&& d.account_id == c.account_id
                        &&& d.region == c.region
                        &&& d.slug@ == c.spec_slug()
                    },
            decreases n - i,
        {
            let c = &self.partitions[i];
            let copy = c.clone();
            out.push(
                PartitionDisplay {
                    start_url: copy.start_url,
                    account_id: copy.account_id,
                    region: copy.region,
                    slug: c.slug(),
                },
            );
            i += 1;
        }
        out
    }

    /// The configured partition whose slug is `p`, if any.
    pub fn partition(&self, p: String) -> (r: Option<Partition>)
        requires
            self.wf(),
        ensures
            r == first_match(self.partitions@, |c: Partition| c.spec_slug() == p@),
    {
        let ghost pred = |c: Partition| c.spec_slug() == p@;
        let mut i: usize = 0;
        let n = self.partitions.len();
        while i < n
            invariant
                0 <= i <= n,
                n == self.partitions@.len(),
                self.wf(),
                first_match(self.partitions@.take(i as int), pred) is None,
                pred == (|c: Partition| c.spec_slug() == p@),
            decreases n - i,
        {
            let candidate = &self.partitions[i];
            let s = candidate.slug();
            if s == p {
                proof {
                    lemma_first_match_found(self.partitions@, pred, i as int);
                }
                return Some(candidate.clone());
            }
            proof {
                crate::util::lemma_first_match_none_push(
                    self.partitions@.take(i as int),
                    pred,
                    self.partitions@[i as int],
                );
                assert(self.partitions@.take(i as int).push(self.partitions@[i as int])
                    =~= self.partitions@.take(i as int + 1));
            }
            i += 1;
        }
        proof {
            assert(self.partitions@.take(n as int) =~= self.partitions@);
        }
        None
    }
}

} // verus!
