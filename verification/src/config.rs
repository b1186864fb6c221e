//! Server configuration: its shape, the defaults written for a new
//! installation, the node identity kept in it, and where it lives on disk.
use vstd::prelude::*;
use crate::ids::{is_uuid_v4_text, new_uuid};
use crate::net::{unspecified_v4, IpAddress};
use crate::paths::{join_path, joined};
use crate::text::{contains_text, owned};

verus! {

broadcast use vstd::string::group_string_axioms;

/// The whole configuration file.
#[derive(Debug, Clone)]
pub struct Config {
    pub server: ServerConfig,
    pub storage: StorageConfig,
    pub sync: SyncConfig,
    pub graveyard: GraveyardConfig,
    pub logging: LoggingConfig,
}

/// HTTP server settings.
#[derive(Debug, Clone)]
pub struct ServerConfig {
    pub host: IpAddress,
    pub port: u16,
    pub external_url: Option<String>,
    pub api_keys: Vec<ApiKey>,
    pub cors_origins: Vec<String>,
}

/// A named API key; a read-only key may not change anything.
#[derive(Debug, Clone)]
pub struct ApiKey {
    pub name: String,
    pub key: String,
    pub read_only: bool,
}

/// Where files are watched, uploaded and indexed.
#[derive(Debug, Clone)]
pub struct StorageConfig {
    pub watch_paths: Vec<String>,
    pub upload_path: String,
    pub db_path: String,
}

/// Peer-to-peer synchronisation settings.
#[derive(Debug, Clone)]
pub struct SyncConfig {
    pub enabled: bool,
    pub listen_port: u16,
    pub relay_server: Option<String>,
    pub node_id: Option<String>,
}

/// Where replaced file versions are kept, and for how long.
#[derive(Debug, Clone)]
pub struct GraveyardConfig {
    pub path: String,
    pub ttl_days: i64,
    pub max_size_mb: u64,
}

/// Log file settings.
#[derive(Debug, Clone)]
pub struct LoggingConfig {
    pub dir: String,
    pub max_files: u32,
    pub level: String,
}

/// The home directory the configuration defaults are placed under: the
/// `HOME` variable when it is set, else `USER_HOME`, else `/data`.
pub open spec fn chosen_home(home: Option<Seq<char>>, user_home: Option<Seq<char>>) -> Seq<char> {
    match home {
        Some(h) => h,
        None => match user_home {
            Some(u) => u,
            None => "/data"@,
        },
    }
}

/// Picks the home directory from the values of `HOME` and `USER_HOME`
/// (`None` for a variable that is unset or not valid Unicode).
pub fn home_dir_from(home: Option<String>, user_home: Option<String>) -> (r: String)
    ensures
        r@ == chosen_home(
            match home {
                Some(h) => Some(h@),
                None => None,
            },
            match user_home {
                Some(u) => Some(u@),
                None => None,
            },
        ),
{
    match home {
        Some(h) => h,
        None => match user_home {
            Some(u) => u,
            None => String::from_str("/data"),
        },
    }
}

/// The default configuration for a home directory `home`, whose admin API
/// key is `admin_key`.
pub open spec fn is_default_config(c: Config, home: Seq<char>, admin_key: Seq<char>) -> bool {
    &&& c.server.host == IpAddress::V4(0u8, 0u8, 0u8, 0u8)
    &&& c.server.port == 8080
    &&& c.server.external_url is None
    &&& c.server.api_keys@.len() == 1
    &&& c.server.api_keys@[0].name@ == "admin"@
    &&& c.server.api_keys@[0].key@ == admin_key
    &&& !c.server.api_keys@[0].read_only
    &&& c.server.cors_origins@.len() == 1
    &&& c.server.cors_origins@[0]@ == "*"@
    &&& c.storage.watch_paths@.len() == 1
    &&& c.storage.watch_paths@[0]@ == "/data/storage"@
    &&& c.storage.upload_path@ == "/data/storage"@
    &&& c.storage.db_path@ == joined(home, "aktags.db"@)
    &&& !c.sync.enabled
    &&& c.sync.listen_port == 22000
    &&& c.sync.relay_server is None
    &&& c.sync.node_id is None
    &&& c.graveyard.path@ == joined(home, "graveyard"@)
    &&& c.graveyard.ttl_days == 30
    &&& c.graveyard.max_size_mb == 500
    &&& c.logging.dir@ == joined(home, "logs"@)
    &&& c.logging.max_files == 5
    &&& c.logging.level@ == "info"@
}

impl Config {
    /// The configuration written for a new installation whose home
    /// directory is `home`: listen on 0.0.0.0:8080 with one fresh random
    /// admin key, store under /data/storage, keep the index, graveyard and
    /// logs under `home`, sync off.  `None` when no random key can be had
    /// (the operating system's random source failed).
    pub fn default_for_home(home: &str) -> (r: Option<Config>)
        ensures
            r matches Some(c) ==> is_default_config(c, home@, c.server.api_keys@[0].key@)
                && is_uuid_v4_text(c.server.api_keys@[0].key@),
    {
        match new_uuid() {
            Some(key) => Some(Config::default_with_key(home, key)),
            None => None,
        }
    }

    /// The default configuration for the home directory `home`, with
    /// `key` as its admin key.
    pub fn default_with_key(home: &str, key: String) -> (c: Config)
        ensures
            is_default_config(c, home@, key@),
    {
        let key = ApiKey {
            name: String::from_str("admin"),
            key,
            read_only: false,
        };
        let mut api_keys: Vec<ApiKey> = Vec::new();
        api_keys.push(key);
        let mut cors_origins: Vec<String> = Vec::new();
        cors_origins.push(String::from_str("*"));
        let mut watch_paths: Vec<String> = Vec::new();
        watch_paths.push(String::from_str("/data/storage"));
        Config {
            server: ServerConfig {
                host: unspecified_v4(),
                port: 8080,
                external_url: None,
                api_keys,
                cors_origins,
            },
            storage: StorageConfig {
                watch_paths,
                upload_path: String::from_str("/data/storage"),
                db_path: join_path(home, "aktags.db"),
            },
            sync: SyncConfig { enabled: false, listen_port: 22000, relay_server: None, node_id: None },
            graveyard: GraveyardConfig {
                path: join_path(home, "graveyard"),
                ttl_days: 30,
                max_size_mb: 500,
            },
            logging: LoggingConfig {
                dir: join_path(home, "logs"),
                max_files: 5,
                level: String::from_str("info"),
            },
        }
    }
}

/// What a call of `Config::node_id` does: with an id already stored it
/// returns that id and changes nothing; otherwise it returns a fresh
/// version-4 UUID and stores it, changing nothing else.
pub open spec fn node_id_call(before: Config, r: Seq<char>, after: Config) -> bool {
    match before.sync.node_id {
        Some(id) => r == id@ && after == before,
        None => {
            &&& is_uuid_v4_text(r)
            &&& after.sync.node_id matches Some(n) && n@ == r
            &&& after.server == before.server
            &&& after.storage == before.storage
            &&& after.graveyard == before.graveyard
            &&& after.logging == before.logging
            &&& after.sync.enabled == before.sync.enabled
            &&& after.sync.listen_port == before.sync.listen_port
            &&& after.sync.relay_server == before.sync.relay_server
        },
    }
}

impl Config {
    /// This node's id: the stored one, or a fresh one that is stored first.
    /// `None`, with nothing changed, when no id is stored and no random one
    /// can be had (the operating system's random source failed).
    pub fn node_id(&mut self) -> (r: Option<String>)
        ensures
            match r {
                Some(id) => node_id_call(*old(self), id@, *final(self)),
                None => old(self).sync.node_id is None && *final(self) == *old(self),
            },
            old(self).sync.node_id is Some ==> r is Some,
    {
        match &self.sync.node_id {
            Some(id) => {
                return Some(id.clone());
            },
            None => {},
        }
        match new_uuid() {
            Some(id) => {
                self.sync.node_id = Some(id.clone());
                Some(id)
            },
            None => None,
        }
    }
}

/// Asking twice for the node id gives the same answer, and the second call
/// leaves the configuration as the first left it.
pub proof fn lemma_node_id_stable(c0: Config, r1: Seq<char>, c1: Config, r2: Seq<char>, c2: Config)
    requires
        node_id_call(c0, r1, c1),
        node_id_call(c1, r2, c2),
    ensures
        r2 == r1,
        c2 == c1,
{
}

/// A non-empty name of lowercase ASCII letters and digits, which every
/// platform of `directories` puts unchanged into the project path (Linux
/// lowercases it and drops whitespace, macOS turns spaces into `-`, Windows
/// takes it as it is).
pub open spec fn is_plain_name(a: Seq<char>) -> bool {
    a.len() > 0 && forall|i: int|
        0 <= i < a.len() ==> ('a' <= #[trigger] a[i] && a[i] <= 'z') || ('0' <= a[i] && a[i] <= '9')
}

/// Calls `directories::ProjectDirs::from` and returns its configuration
/// directory as text (lossily for non-Unicode paths).  The contract states
/// that a directory found is not empty and, for a plain application name,
/// holds that name: on every platform the directory is a base directory
/// joined with a project path that contains the name (Linux: the name
/// itself; macOS: qualifier, organization and name joined by dots; Windows:
/// organization, then name, then `config`).  Left unsaid: the base
/// directory, which depends on the platform and the environment.
#[verifier::external_body]
fn project_config_dir(qualifier: &str, organization: &str, application: &str) -> (r: Option<String>)
    ensures
        r matches Some(d) ==> d@.len() > 0,
        r matches Some(d) ==> (is_plain_name(application@) ==> contains_text(d@, application@)),
{
    match directories::ProjectDirs::from(qualifier, organization, application) {
        Some(d) => Some(d.config_dir().to_string_lossy().into_owned()),
        None => None,
    }
}

/// Calls `directories::ProjectDirs::from` and returns its data directory as
/// text (lossily for non-Unicode paths).  As for the configuration
/// directory, a directory found is not empty and, for a plain application
/// name, holds that name (Windows ends it with `data`); the base directory
/// is left unsaid.
#[verifier::external_body]
fn project_data_dir(qualifier: &str, organization: &str, application: &str) -> (r: Option<String>)
    ensures
        r matches Some(d) ==> d@.len() > 0,
        r matches Some(d) ==> (is_plain_name(application@) ==> contains_text(d@, application@)),
{
    match directories::ProjectDirs::from(qualifier, organization, application) {
        Some(d) => Some(d.data_dir().to_string_lossy().into_owned()),
        None => None,
    }
}

proof fn lemma_akcloud_plain()
    ensures
        is_plain_name("akcloud"@),
{
    reveal_strlit("akcloud");
}

/// The directory found for the project, or `fallback` when none was found.
pub fn dir_or(found: Option<String>, fallback: &str) -> (r: String)
    ensures
        match found {
            Some(d) => r@ == d@,
            None => r@ == fallback@,
        },
{
    match found {
        Some(d) => d,
        None => owned(fallback),
    }
}

/// The configuration directory of the `akcloud` application, or `/config`
/// when the platform gives none.
pub fn get_config_dir() -> (r: String)
    ensures
        r@.len() > 0,
        r@ == "/config"@ || contains_text(r@, "akcloud"@),
{
    let found = project_config_dir("com", "aktags", "akcloud");
    proof {
        reveal_strlit("/config");
        lemma_akcloud_plain();
    }
    dir_or(found, "/config")
}

/// The data directory of the `akcloud` application, or `/data` when the
/// platform gives none.
pub fn get_data_dir() -> (r: String)
    ensures
        r@.len() > 0,
        r@ == "/data"@ || contains_text(r@, "akcloud"@),
{
    let found = project_data_dir("com", "aktags", "akcloud");
    proof {
        reveal_strlit("/data");
        lemma_akcloud_plain();
    }
    dir_or(found, "/data")
}

/// The configuration file: the one named on the command line, else
/// `config.toml` in `config_dir`.
pub fn config_file_path(given: Option<String>, config_dir: &str) -> (r: String)
    ensures
        match given {
            Some(p) => r@ == p@,
            None => r@ == joined(config_dir@, "config.toml"@),
        },
{
    match given {
        Some(p) => p,
        None => join_path(config_dir, "config.toml"),
    }
}

impl Config {
    /// Applies the port and host given on the command line.
    pub fn apply_overrides(&mut self, port: Option<u16>, host: Option<IpAddress>)
        ensures
            final(self).server.port == match port {
                Some(p) => p,
                None => old(self).server.port,
            },
            final(self).server.host == match host {
                Some(h) => h,
                None => old(self).server.host,
            },
            final(self).server.external_url == old(self).server.external_url,
            final(self).server.api_keys == old(self).server.api_keys,
            final(self).server.cors_origins == old(self).server.cors_origins,
            final(self).storage == old(self).storage,
            final(self).sync == old(self).sync,
            final(self).graveyard == old(self).graveyard,
            final(self).logging == old(self).logging,
    {
        if let Some(p) = port {
            self.server.port = p;
        }
        if let Some(h) = host {
            self.server.host = h;
        }
    }
}

} // verus!
