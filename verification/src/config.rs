//! Service configuration: the values every request handler reads and never
//! mutates. A parsed configuration is scaled and defaulted by
//! [`Config::from_parsed`]; reading the file itself is the caller's concern.

use vstd::prelude::*;
use crate::hashing::{get_str_sha256, str_sha256_hex};

verus! {

/// How file extensions gate upload acceptance.
#[derive(Clone, Copy, Debug, PartialEq, Eq, Structural)]
pub enum UploadMode {
    /// Every extension is accepted.
    Disabled,
    /// Only extensions on the whitelist are accepted.
    Whitelist,
    /// Extensions on the blacklist are rejected.
    Blacklist,
}

/// The service configuration.
#[derive(Clone, Debug)]
pub struct Config {
    pub www_root: String,
    pub proxy: bool,
    pub ssl: bool,
    pub host: String,
    pub port: u16,
    pub local: bool,
    pub max_file_size: usize,
    pub use_token: bool,
    pub token: String,
    pub upload_mode: UploadMode,
    pub upload_whitelist: Vec<String>,
    pub upload_blacklist: Vec<String>,
}

impl Config {
    /// The hard-coded default configuration.
    pub fn new() -> (r: Self)
        ensures
            r.www_root@ == "."@,
            r.proxy == false,
            r.ssl == false,
            r.host@ == "localhost"@,
            r.port == 7879,
            r.local == true,
            r.max_file_size == 5242880,
            r.use_token == false,
            r.token@ == "testtoken"@,
            r.upload_mode == UploadMode::Disabled,
            r.upload_whitelist@.len() == 0,
            r.upload_blacklist@.len() == 0,
    {
        Config {
            www_root: ".".to_owned(),
            proxy: false,
            ssl: false,
            host: "localhost".to_owned(),
            port: 7879,
            local: true,
            max_file_size: 5 * 1024 * 1024,
            use_token: false,
            token: "testtoken".to_owned(),
            upload_mode: UploadMode::Disabled,
            upload_whitelist: Vec::new(),
            upload_blacklist: Vec::new(),
        }
    }

    /// Finishes loading a configuration: a parsed value has its size cap
    /// scaled from mebibytes to bytes; when parsing failed, the hard-coded
    /// default stands unchanged, its cap already in bytes.
    pub fn from_parsed(parsed: Option<Config>) -> (r: Config)
        requires
            (parsed matches Some(c) ==> c.max_file_size as nat * 0x100000 <= usize::MAX),
        ensures
            (parsed matches Some(c) ==> r == (Config { max_file_size: r.max_file_size, ..c })
                && r.max_file_size == c.max_file_size * 0x100000),
            (parsed is None ==> r.www_root@ == "."@ && !r.proxy && !r.ssl && r.host@
                == "localhost"@ && r.port == 7879 && r.local && r.max_file_size == 5242880
                && !r.use_token && r.token@ == "testtoken"@ && r.upload_mode
                == UploadMode::Disabled && r.upload_whitelist@.len() == 0
                && r.upload_blacklist@.len() == 0),
    {
        match parsed {
            Some(mut config) => {
                config.max_file_size = config.max_file_size * 0x100000;
                config
            },
            None => Config::new(),
        }
    }
}

impl Config {
    /// The root directory that static assets and the storage directory live
    /// under.
    pub fn www_root(&self) -> (r: &str)
        ensures
            r@ == self.www_root@,
    {
        self.www_root.as_str()
    }

    /// Whether the service sits behind a reverse proxy; returned URLs then
    /// carry no port.
    pub fn proxy(&self) -> (r: bool)
        ensures
            r == self.proxy,
    {
        self.proxy
    }

    /// Whether returned URLs use the https scheme.
    pub fn ssl(&self) -> (r: bool)
        ensures
            r == self.ssl,
    {
        self.ssl
    }

    /// The host name used in returned URLs.
    pub fn host(&self) -> (r: &str)
        ensures
            r@ == self.host@,
    {
        self.host.as_str()
    }

    /// The port to listen on.
    pub fn port(&self) -> (r: u16)
        ensures
            r == self.port,
    {
        self.port
    }

    /// Whether the service listens on the loopback interface only.
    pub fn local(&self) -> (r: bool)
        ensures
            r == self.local,
    {
        self.local
    }

    /// The upload size cap in bytes.
    pub fn max_file_size(&self) -> (r: usize)
        ensures
            r == self.max_file_size,
    {
        self.max_file_size
    }

    /// Whether uploads must present the shared token.
    pub fn use_token(&self) -> (r: bool)
        ensures
            r == self.use_token,
    {
        self.use_token
    }

    /// The digest of the shared token, in lowercase hexadecimal.
    pub fn hashed_token(&self) -> (r: String)
        ensures
            r@ == str_sha256_hex(self.token@),
    {
        get_str_sha256(self.token.as_str())
    }

    /// The extension gating mode.
    pub fn upload_mode(&self) -> (r: UploadMode)
        ensures
            r == self.upload_mode,
    {
        self.upload_mode.clone()
    }

    /// The extensions accepted in whitelist mode.
    pub fn upload_whitelist(&self) -> (r: Vec<String>)
        ensures
            r.deep_view() == self.upload_whitelist.deep_view(),
    {
        self.upload_whitelist.clone()
    }

    /// The extensions rejected in blacklist mode.
    pub fn upload_blacklist(&self) -> (r: Vec<String>)
        ensures
            r.deep_view() == self.upload_blacklist.deep_view(),
    {
        self.upload_blacklist.clone()
    }
}

} // verus!
