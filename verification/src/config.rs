//! The user's configuration: known keys, and which of them are secret.

use vstd::prelude::*;
use crate::error::GdvmError;
use crate::text::str_eq;

verus! {

/// The user's configuration.
#[derive(Debug)]
pub struct Config {
    /// The token sent to the release host, under the key `github.token`.
    pub github_token: Option<String>,
}

impl Default for Config {
    fn default() -> (r: Self)
        ensures
            r.github_token is None,
    {
        Config { github_token: None }
    }
}

/// The key is one that the configuration knows.
pub open spec fn is_known_key(key: Seq<char>) -> bool {
    key == "github.token"@
}

/// The keys that the configuration knows.
pub fn known_keys() -> (r: Vec<&'static str>)
    ensures
        r@.len() == 1,
        r@[0]@ == "github.token"@,
{
    let mut out: Vec<&'static str> = Vec::new();
    out.push("github.token");
    out
}

/// Reading and changing configuration values by key.
pub trait ConfigOps {
    /// The value of a key, if it is set.
    fn get_value(&self, key: &str) -> Option<String>;

    /// Sets a key to a value.
    fn set_value(&mut self, key: &str, value: &str) -> Result<(), GdvmError>;

    /// Removes the value of a key.
    fn unset_value(&mut self, key: &str) -> Result<(), GdvmError>;

    /// Whether the value of a key is a secret.
    fn is_sensitive_key(&self, key: &str) -> bool;

    /// The keys that are set, each with its value and whether it is a
    /// secret.
    fn list_set_keys(&self) -> Vec<(String, String, bool)>;
}

impl ConfigOps for Config {
    /// The value of a known key that is set; nothing for any other key.
    fn get_value(&self, key: &str) -> (r: Option<String>)
        ensures
            match r {
                Some(v) => is_known_key(key@) && self.github_token is Some && v@
                    == self.github_token->0@,
                None => !is_known_key(key@) || self.github_token is None,
            },
    {
        if str_eq(key, "github.token") {
            match &self.github_token {
                Some(t) => Some(t.clone()),
                None => None,
            }
        } else {
            None
        }
    }

    /// Sets a known key; an unknown key is refused and changes nothing.
    fn set_value(&mut self, key: &str, value: &str) -> (r: Result<(), GdvmError>)
        ensures
            is_known_key(key@) ==> r is Ok && final(self).github_token is Some
                && final(self).github_token->0@ == value@,
            !is_known_key(key@) ==> r is Err && r->Err_0 is UnknownConfigKey && *final(self)
                == *old(self),
    {
        if str_eq(key, "github.token") {
            self.github_token = Some(value.to_string());
            Ok(())
        } else {
            Err(GdvmError::UnknownConfigKey)
        }
    }

    /// Unsets a known key; an unknown key is refused and changes nothing.
    fn unset_value(&mut self, key: &str) -> (r: Result<(), GdvmError>)
        ensures
            is_known_key(key@) ==> r is Ok && final(self).github_token is None,
            !is_known_key(key@) ==> r is Err && r->Err_0 is UnknownConfigKey && *final(self)
                == *old(self),
    {
        if str_eq(key, "github.token") {
            self.github_token = None;
            Ok(())
        } else {
            Err(GdvmError::UnknownConfigKey)
        }
    }

    /// The token is a secret; no other key is.
    fn is_sensitive_key(&self, key: &str) -> (r: bool)
        ensures
            r == (key@ == "github.token"@),
    {
        str_eq(key, "github.token")
    }

    /// One entry for the token where it is set, marked secret; else none.
    fn list_set_keys(&self) -> (r: Vec<(String, String, bool)>)
        ensures
            match self.github_token {
                Some(t) => r@.len() == 1 && r@[0].0@ == "github.token"@ && r@[0].1@ == t@
                    && r@[0].2,
                None => r@.len() == 0,
            },
    {
        let mut entries: Vec<(String, String, bool)> = Vec::new();
        match &self.github_token {
            Some(token) => {
                entries.push(("github.token".to_string(), token.clone(), true));
            },
            None => {},
        }
        entries
    }
}

/// The configuration to work with, given what reading the configuration
/// file gave: the parsed configuration, or the default one where there is
/// no file or it does not parse.
pub fn config_or_default(parsed: Option<Config>) -> (r: Config)
    ensures
        match parsed {
            Some(c) => r == c,
            None => r.github_token is None,
        },
{
    match parsed {
        Some(c) => c,
        None => Config::default(),
    }
}

/// How a configuration value is shown in a listing: a secret is masked
/// unless the caller asks to see it, and an unset key shows as not set.
pub fn display_value(value: Option<&str>, sensitive: bool, show_sensitive: bool) -> (r: String)
    ensures
        r@ == match value {
            Some(v) => if sensitive && !show_sensitive {
                "********"@
            } else {
                v@
            },
            None => "<not set>"@,
        },
{
    match value {
        Some(v) => {
            if sensitive && !show_sensitive {
                "********".to_string()
            } else {
                v.to_string()
            }
        },
        None => "<not set>".to_string(),
    }
}

} // verus!
