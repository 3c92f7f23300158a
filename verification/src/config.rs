//! Workflow configuration: the Phabricator endpoint and token from the
//! Arcanist settings, and the Meilisearch endpoint and key.

use vstd::prelude::*;
use crate::text::{trim_end_char, trim_end_matches_char};

verus! {

/// The workflow's configuration.
#[derive(Debug)]
pub struct Config {
    pub ph_base_url: String,
    pub ph_api_url: String,
    pub ph_api_token: String,
    pub meili_url: String,
    pub meili_key: String,
}

/// The Meilisearch address used when none is configured.
pub open spec fn default_meili_url() -> Seq<char> {
    "http://localhost:7700"@
}

impl Config {
    /// Assembles the configuration from the Arcanist settings: `default_url`
    /// is the configured default Phabricator address, `host` a configured
    /// API host with its token, `meili_url` and `meili_key` the Meilisearch
    /// settings when given. Trailing slashes are removed from both
    /// Phabricator addresses. There is no configuration without a host.
    pub fn from_arcrc(
        default_url: &str,
        host: Option<(String, String)>,
        meili_url: Option<String>,
        meili_key: Option<String>,
    ) -> (r: Option<Config>)
        ensures
            match (host, r) {
                (None, None) => true,
                (Some((api_url, token)), Some(c)) => {
                    &&& c.ph_base_url@ == trim_end_char(default_url@, '/')
                    &&& c.ph_api_url@ == trim_end_char(api_url@, '/')
                    &&& c.ph_api_token@ == token@
                    &&& c.meili_url@ == match meili_url {
                        Some(u) => u@,
                        None => default_meili_url(),
                    }
                    &&& c.meili_key@ == match meili_key {
                        Some(k) => k@,
                        None => Seq::<char>::empty(),
                    }
                },
                _ => false,
            },
    {
        match host {
            None => None,
            Some((api_url, token)) => {
                let ph_base_url = String::from_str(trim_end_matches_char(default_url, '/'));
                let ph_api_url = String::from_str(trim_end_matches_char(api_url.as_str(), '/'));
                let meili_url = match meili_url {
                    Some(u) => u,
                    None => String::from_str("http://localhost:7700"),
                };
                let meili_key = match meili_key {
                    Some(k) => k,
                    None => String::new(),
                };
                Some(Config { ph_base_url, ph_api_url, ph_api_token: token, meili_url, meili_key })
            },
        }
    }

    /// The address of a Phabricator API method (`path` starts with `/`).
    pub fn api_endpoint(&self, path: &str) -> (r: String)
        ensures
            r@ == self.ph_api_url@ + path@,
    {
        let mut r = self.ph_api_url.clone();
        r.append(path);
        r
    }

    /// The value of the `Authorization` header sent to Meilisearch.
    pub fn meili_authorization(&self) -> (r: String)
        ensures
            r@ == "Bearer "@ + self.meili_key@,
    {
        let mut r = String::from_str("Bearer ");
        r.append(self.meili_key.as_str());
        r
    }
}

/// Removing trailing slashes leaves an address that does not end with a
/// slash and that begins the given address; addresses that pass through
/// `from_arcrc` therefore never end with `/`.
pub proof fn trimmed_addresses_have_no_trailing_slash(s: Seq<char>)
    ensures
        trim_end_char(s, '/').len() > 0 ==> trim_end_char(s, '/').last() != '/',
        trim_end_char(s, '/').len() <= s.len(),
        s.subrange(0, trim_end_char(s, '/').len() as int) == trim_end_char(s, '/'),
    decreases s.len(),
{
    if s.len() > 0 && s.last() == '/' {
        trimmed_addresses_have_no_trailing_slash(s.drop_last());
        let t = trim_end_char(s.drop_last(), '/');
        assert(s.subrange(0, t.len() as int) =~= s.drop_last().subrange(0, t.len() as int));
    } else {
        assert(s.subrange(0, s.len() as int) =~= s);
    }
}

} // verus!
