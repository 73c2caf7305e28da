//! The rules that gate an upload: token requirement, size cap, and the
//! extension allow/deny mode with its list.

use vstd::prelude::*;
use crate::config::{Config, UploadMode};
use crate::hashing::{get_str_sha256, str_sha256_hex};

verus! {

/// How extensions gate acceptance, with the governing list.
pub enum ExtensionPolicy {
    /// Every extension is accepted.
    Disabled,
    /// Only listed extensions are accepted.
    Whitelist(Vec<String>),
    /// Listed extensions are rejected.
    Blacklist(Vec<String>),
}

/// The immutable per-process upload policy.
pub struct Policy {
    /// The size cap in bytes; a cumulative body strictly above it is
    /// rejected.
    pub max_file_size: usize,
    /// Whether the first multipart field must carry the shared token.
    pub require_token: bool,
    /// The hexadecimal digest the presented token's digest must equal.
    pub token_digest: String,
    /// The extension gate.
    pub extensions: ExtensionPolicy,
}

/// Whether the policy allows an extension.
pub open spec fn extension_allowed_spec(p: ExtensionPolicy, ext: Seq<char>) -> bool {
    match p {
        ExtensionPolicy::Disabled => true,
        ExtensionPolicy::Whitelist(list) => list.deep_view().contains(ext),
        ExtensionPolicy::Blacklist(list) => !list.deep_view().contains(ext),
    }
}

/// Whether a presented token satisfies the policy: nothing is required, or
/// the token is present and its digest equals the stored digest.
pub open spec fn token_accepted(policy: Policy, token: Option<Seq<char>>) -> bool {
    !policy.require_token || (token matches Some(t) && str_sha256_hex(t)
        == policy.token_digest@)
}

/// Whether a list holds this exact string.
fn list_contains(list: &Vec<String>, x: &String) -> (r: bool)
    ensures
        r == list.deep_view().contains(x@),
{
    let n = list.len();
    let mut i: usize = 0;
    while i < n
        invariant
            i <= n,
            n == list@.len(),
            forall|j: int| 0 <= j < i ==> list.deep_view()[j] != x@,
        decreases n - i,
    {
        if list[i] == *x {
            proof {
                assert(list.deep_view()[i as int] == x@);
            }
            return true;
        }
        proof {
            assert(list.deep_view()[i as int] == list@[i as int]@);
        }
        i += 1;
    }
    false
}

impl Policy {
    /// Builds the policy a configuration prescribes, hashing its token.
    pub fn from_config(config: &Config) -> (r: Policy)
        ensures
            r.max_file_size == config.max_file_size,
            r.require_token == config.use_token,
            r.token_digest@ == str_sha256_hex(config.token@),
            config.upload_mode == UploadMode::Disabled ==> r.extensions is Disabled,
            config.upload_mode == UploadMode::Whitelist ==> (r.extensions matches
                ExtensionPolicy::Whitelist(l) && l.deep_view()
                == config.upload_whitelist.deep_view()),
            config.upload_mode == UploadMode::Blacklist ==> (r.extensions matches
                ExtensionPolicy::Blacklist(l) && l.deep_view()
                == config.upload_blacklist.deep_view()),
    {
        let extensions = match config.upload_mode() {
            UploadMode::Disabled => ExtensionPolicy::Disabled,
            UploadMode::Whitelist => ExtensionPolicy::Whitelist(config.upload_whitelist()),
            UploadMode::Blacklist => ExtensionPolicy::Blacklist(config.upload_blacklist()),
        };
        Policy {
            max_file_size: config.max_file_size(),
            require_token: config.use_token(),
            token_digest: config.hashed_token(),
            extensions,
        }
    }

    /// Whether an extension passes this policy's gate.
    pub fn extension_allowed(&self, ext: &String) -> (r: bool)
        ensures
            r == extension_allowed_spec(self.extensions, ext@),
    {
        match &self.extensions {
            ExtensionPolicy::Disabled => true,
            ExtensionPolicy::Whitelist(list) => list_contains(list, ext),
            ExtensionPolicy::Blacklist(list) => !list_contains(list, ext),
        }
    }

    /// Whether a presented token satisfies this policy.
    pub fn check_token(&self, token: Option<&String>) -> (r: bool)
        ensures
            r == token_accepted(*self, token.deep_view()),
    {
        if !self.require_token {
            return true;
        }
        match token {
            Some(t) => {
                let digest = get_str_sha256(t.as_str());
                digest == self.token_digest
            },
            None => false,
        }
    }
}

} // verus!
