//! Server settings: the secure defaults, derived addresses, validation and
//! the legacy environment overrides.
use vstd::prelude::*;

use crate::text::{
    chars_of, decimal, decimal_of, extend_chars, extend_str, has_prefix, seq_eq, string_of,
    string_of_range, trim, trimmed, parse_u64, u64_text,
};

verus! {

#[derive(Debug, Clone)]
pub struct ServerConfig {
    pub host: String,
    pub port: u16,
}

#[derive(Debug, Clone)]
pub struct StorageConfig {
    pub root: String,
    pub disks_root: String,
    pub disk1: String,
    pub disk2: String,
}

#[derive(Debug, Clone)]
pub struct DatabaseConfig {
    pub engine: String,
    pub path: String,
}

#[derive(Debug, Clone)]
pub struct RuntimeConfig {
    pub directory: String,
    pub temporary_directory: String,
    pub cache_directory: String,
    pub log_directory: String,
}

#[derive(Debug, Clone)]
pub struct FrontendConfig {
    pub dist_directory: String,
    pub index_file: String,
}

#[derive(Debug, Clone)]
pub struct LoggingConfig {
    pub level: String,
}

#[derive(Debug, Clone)]
pub struct ReleaseConfig {
    pub version: String,
    pub environment: String,
}

/// All server settings.
#[derive(Debug, Clone)]
pub struct Settings {
    pub server: ServerConfig,
    pub storage: StorageConfig,
    pub database: DatabaseConfig,
    pub runtime: RuntimeConfig,
    pub frontend: FrontendConfig,
    pub logging: LoggingConfig,
    pub release: ReleaseConfig,
}

impl Default for ServerConfig {
    /// Listens on the loopback interface only, port 8081.
    fn default() -> (r: Self)
        ensures
            r.host@ == "127.0.0.1"@,
            r.port == 8081,
    {
        ServerConfig { host: "127.0.0.1".to_string(), port: 8081 }
    }
}

pub open spec fn default_storage(s: StorageConfig) -> bool {
    &&& s.root@ == "/srv/photoos"@
    &&& s.disks_root@ == "/srv/photoos/disks"@
    &&& s.disk1@ == "/srv/photoos/disks/disk1"@
    &&& s.disk2@ == "/srv/photoos/disks/disk2"@
}

impl Default for StorageConfig {
    fn default() -> (r: Self)
        ensures
            default_storage(r),
    {
        StorageConfig {
            root: "/srv/photoos".to_string(),
            disks_root: "/srv/photoos/disks".to_string(),
            disk1: "/srv/photoos/disks/disk1".to_string(),
            disk2: "/srv/photoos/disks/disk2".to_string(),
        }
    }
}

impl Default for DatabaseConfig {
    fn default() -> (r: Self)
        ensures
            r.engine@ == "sqlite"@,
            r.path@ == "/var/lib/photoos/runtime/luminos.db"@,
    {
        DatabaseConfig {
            engine: "sqlite".to_string(),
            path: "/var/lib/photoos/runtime/luminos.db".to_string(),
        }
    }
}

impl Default for RuntimeConfig {
    fn default() -> (r: Self)
        ensures
            r.directory@ == "/var/lib/photoos/runtime"@,
            r.temporary_directory@ == "/var/lib/photoos/runtime/tmp"@,
            r.cache_directory@ == "/var/lib/photoos/runtime/cache"@,
            r.log_directory@ == "/var/lib/photoos/runtime/logs"@,
    {
        RuntimeConfig {
            directory: "/var/lib/photoos/runtime".to_string(),
            temporary_directory: "/var/lib/photoos/runtime/tmp".to_string(),
            cache_directory: "/var/lib/photoos/runtime/cache".to_string(),
            log_directory: "/var/lib/photoos/runtime/logs".to_string(),
        }
    }
}

impl Default for FrontendConfig {
    fn default() -> (r: Self)
        ensures
            r.dist_directory@ == "/opt/photoos/current/client/dist"@,
            r.index_file@ == "/opt/photoos/current/client/dist/index.html"@,
    {
        FrontendConfig {
            dist_directory: "/opt/photoos/current/client/dist".to_string(),
            index_file: "/opt/photoos/current/client/dist/index.html".to_string(),
        }
    }
}

impl Default for LoggingConfig {
    fn default() -> (r: Self)
        ensures
            r.level@ == "info"@,
    {
        LoggingConfig { level: "info".to_string() }
    }
}

impl Default for ReleaseConfig {
    fn default() -> (r: Self)
        ensures
            r.version@ == "1.2.1-dev-fix8"@,
            r.environment@ == "production"@,
    {
        ReleaseConfig { version: "1.2.1-dev-fix8".to_string(), environment: "production".to_string() }
    }
}

impl Default for Settings {
    fn default() -> (r: Self)
        ensures
            r.server.host@ == "127.0.0.1"@,
            r.server.port == 8081,
            default_storage(r.storage),
            r.database.engine@ == "sqlite"@,
            r.database.path@ == "/var/lib/photoos/runtime/luminos.db"@,
            r.runtime.directory@ == "/var/lib/photoos/runtime"@,
            r.runtime.temporary_directory@ == "/var/lib/photoos/runtime/tmp"@,
            r.runtime.cache_directory@ == "/var/lib/photoos/runtime/cache"@,
            r.runtime.log_directory@ == "/var/lib/photoos/runtime/logs"@,
            r.frontend.dist_directory@ == "/opt/photoos/current/client/dist"@,
            r.frontend.index_file@ == "/opt/photoos/current/client/dist/index.html"@,
            r.logging.level@ == "info"@,
            r.release.version@ == "1.2.1-dev-fix8"@,
            r.release.environment@ == "production"@,
    {
        Settings {
            server: ServerConfig::default(),
            storage: StorageConfig::default(),
            database: DatabaseConfig::default(),
            runtime: RuntimeConfig::default(),
            frontend: FrontendConfig::default(),
            logging: LoggingConfig::default(),
            release: ReleaseConfig::default(),
        }
    }
}

impl Settings {
    /// `<host>:<port>`.
    pub fn bind_address(&self) -> (r: String)
        ensures
            r@ == self.server.host@ + ":"@ + decimal(self.server.port as nat),
    {
        let mut v = chars_of(self.server.host.as_str());
        extend_str(&mut v, ":");
        let d = decimal_of(self.server.port as u64);
        extend_chars(&mut v, &d);
        string_of(&v)
    }

    /// The loopback URL of this server's own API.
    pub fn internal_api_base_url(&self) -> (r: String)
        ensures
            r@ == "http://127.0.0.1:"@ + decimal(self.server.port as nat),
    {
        let mut v = chars_of("http://127.0.0.1:");
        let d = decimal_of(self.server.port as u64);
        extend_chars(&mut v, &d);
        string_of(&v)
    }

    /// Checks the settings: a host that is an IP address or `localhost`, a
    /// non-zero port, the SQLite engine and non-blank paths.
    /// `host_is_ip` tells whether the host parses as an IP address.
    pub fn validate(&self, host_is_ip: bool) -> (r: Result<(), String>)
        ensures
            r is Ok <==> settings_ok(*self, host_is_ip),
    {
        let host = trim_str(self.server.host.as_str());
        if host.len() == 0 {
            return Err("server.host boş olamaz".to_string());
        }
        if !host_is_ip && !crate::text::text_eq(
            self.server.host.as_str(),
            "localhost",
        ) {
            let mut m = chars_of("server.host geçersiz: ");
            extend_str(&mut m, self.server.host.as_str());
            return Err(string_of(&m));
        }
        if self.server.port == 0 {
            return Err("server.port 1-65535 arasında olmalıdır".to_string());
        }
        let engine = trim_str(self.database.engine.as_str());
        let sqlite = chars_of("sqlite");
        if !seq_eq(&engine, &sqlite) {
            let mut m = chars_of("Desteklenmeyen database.engine: ");
            extend_str(&mut m, self.database.engine.as_str());
            return Err(string_of(&m));
        }
        validate_non_empty_path("database.path", self.database.path.as_str())?;
        validate_non_empty_path("storage.root", self.storage.root.as_str())?;
        validate_non_empty_path("runtime.directory", self.runtime.directory.as_str())?;
        validate_non_empty_path(
            "runtime.temporary_directory",
            self.runtime.temporary_directory.as_str(),
        )?;
        validate_non_empty_path("frontend.dist_directory", self.frontend.dist_directory.as_str())?;
        Ok(())
    }
}

pub open spec fn settings_ok(s: Settings, host_is_ip: bool) -> bool {
    &&& trim(s.server.host@).len() != 0
    &&& (host_is_ip || s.server.host@ == "localhost"@)
    &&& s.server.port != 0
    &&& trim(s.database.engine@) == "sqlite"@
    &&& trim(s.database.path@).len() != 0
    &&& trim(s.storage.root@).len() != 0
    &&& trim(s.runtime.directory@).len() != 0
    &&& trim(s.runtime.temporary_directory@).len() != 0
    &&& trim(s.frontend.dist_directory@).len() != 0
}

fn trim_str(s: &str) -> (r: Vec<char>)
    ensures
        r@ == trim(s@),
{
    let c = chars_of(s);
    trimmed(&c)
}

/// A configured path must not be blank; the error names the setting.
pub fn validate_non_empty_path(name: &str, value: &str) -> (r: Result<(), String>)
    ensures
        r is Ok <==> trim(value@).len() != 0,
        r matches Err(m) ==> m@ == name@ + " boş olamaz"@,
{
    let t = trim_str(value);
    if t.len() == 0 {
        let mut m = chars_of(name);
        extend_str(&mut m, " boş olamaz");
        return Err(string_of(&m));
    }
    Ok(())
}

/// The database file named by a SQLite URL.
pub open spec fn sqlite_path_of(v: Seq<char>) -> Option<Seq<char>> {
    if v.len() == 0 {
        None
    } else if has_prefix(v, "sqlite:///"@) {
        Some("/"@ + v.subrange(10, v.len() as int))
    } else if has_prefix(v, "sqlite://"@) {
        Some(v.subrange(9, v.len() as int))
    } else if has_prefix(v, "sqlite:"@) {
        Some(v.subrange(7, v.len() as int))
    } else {
        None
    }
}

/// The database path named by a `sqlite:` URL.
pub fn sqlite_url_to_path(value: &str) -> (r: Option<String>)
    ensures
        match sqlite_path_of(value@) {
            Some(p) => r matches Some(s) && s@ == p,
            None => r is None,
        },
{
    let v = chars_of(value);
    if v.len() == 0 {
        return None;
    }
    proof {
        reveal_strlit("sqlite:///");
        reveal_strlit("sqlite://");
        reveal_strlit("sqlite:");
    }
    let a = chars_of("sqlite:///");
    let b = chars_of("sqlite://");
    let c = chars_of("sqlite:");
    if crate::text::starts_with(&v, &a) {
        let mut out = chars_of("/");
        let mut i: usize = 10;
        let ghost start = out@;
        while i < v.len()
            invariant
                10 <= i <= v.len(),
                out@ == start + v@.subrange(10, i as int),
            decreases v.len() - i,
        {
            out.push(v[i]);
            assert(start + v@.subrange(10, i + 1) =~= (start + v@.subrange(10, i as int)).push(
                v@[i as int],
            ));
            i += 1;
        }
        return Some(string_of(&out));
    }
    if crate::text::starts_with(&v, &b) {
        return Some(string_of_range(&v, 9, v.len()));
    }
    if crate::text::starts_with(&v, &c) {
        return Some(string_of_range(&v, 7, v.len()));
    }
    None
}

/// A legacy environment variable replaces a setting when it is not blank;
/// the setting takes the trimmed value.
pub fn override_string(value: Option<&str>, target: &mut String)
    ensures
        match value {
            Some(v) => if trim(v@).len() != 0 {
                final(target)@ == trim(v@)
            } else {
                final(target)@ == old(target)@
            },
            None => final(target)@ == old(target)@,
        },
{
    if let Some(v) = value {
        let t = trim_str(v);
        if t.len() != 0 {
            *target = string_of(&t);
        }
    }
}

/// The release version: the trimmed contents of the active release's
/// version file when it has any, the configured version otherwise.
pub fn resolve_release_version(configured_version: &str, version_file: Option<&str>) -> (r: String)
    ensures
        match version_file {
            Some(f) => if trim(f@).len() != 0 {
                r@ == trim(f@)
            } else {
                r@ == configured_version@
            },
            None => r@ == configured_version@,
        },
{
    if let Some(f) = version_file {
        let t = trim_str(f);
        if t.len() != 0 {
            return string_of(&t);
        }
    }
    configured_version.to_string()
}

/// The storage settings the server was started with, or the defaults.
pub fn storage_config(configured: Option<&StorageConfig>) -> (r: StorageConfig)
    ensures
        match configured {
            Some(c) => r.root@ == c.root@ && r.disks_root@ == c.disks_root@ && r.disk1@ == c.disk1@
                && r.disk2@ == c.disk2@,
            None => default_storage(r),
        },
{
    match configured {
        Some(c) => StorageConfig {
            root: c.root.clone(),
            disks_root: c.disks_root.clone(),
            disk1: c.disk1.clone(),
            disk2: c.disk2.clone(),
        },
        None => StorageConfig::default(),
    }
}

/// The internal API URL the server was started with, or the historical
/// default.
pub fn internal_api_base_url(configured: Option<&str>) -> (r: String)
    ensures
        match configured {
            Some(c) => r@ == c@,
            None => r@ == "http://127.0.0.1:8080"@,
        },
{
    match configured {
        Some(c) => c.to_string(),
        None => "http://127.0.0.1:8080".to_string(),
    }
}

/// The default settings pass validation (their host is an IP address).
pub proof fn lemma_defaults_are_valid(s: Settings)
    requires
        s.server.host@ == "127.0.0.1"@,
        s.server.port == 8081,
        default_storage(s.storage),
        s.database.engine@ == "sqlite"@,
        s.database.path@ == "/var/lib/photoos/runtime/luminos.db"@,
        s.runtime.directory@ == "/var/lib/photoos/runtime"@,
        s.runtime.temporary_directory@ == "/var/lib/photoos/runtime/tmp"@,
        s.frontend.dist_directory@ == "/opt/photoos/current/client/dist"@,
    ensures
        settings_ok(s, true),
{
    reveal_strlit("127.0.0.1");
    reveal_strlit("sqlite");
    reveal_strlit("/var/lib/photoos/runtime/luminos.db");
    reveal_strlit("/srv/photoos");
    reveal_strlit("/var/lib/photoos/runtime");
    reveal_strlit("/var/lib/photoos/runtime/tmp");
    reveal_strlit("/opt/photoos/current/client/dist");
    crate::text::lemma_lead_spaces_char("127.0.0.1"@, 0);
    crate::text::lemma_lead_spaces_char("sqlite"@, 0);
    crate::text::lemma_lead_spaces_char("/var/lib/photoos/runtime/luminos.db"@, 0);
    crate::text::lemma_lead_spaces_char("/srv/photoos"@, 0);
    crate::text::lemma_lead_spaces_char("/var/lib/photoos/runtime"@, 0);
    crate::text::lemma_lead_spaces_char("/var/lib/photoos/runtime/tmp"@, 0);
    crate::text::lemma_lead_spaces_char("/opt/photoos/current/client/dist"@, 0);
    assert(crate::text::trim_start("sqlite"@) =~= "sqlite"@);
    crate::text::lemma_trail_spaces_char("sqlite"@, 0);
    assert(trim("sqlite"@) =~= "sqlite"@);
}

/// What a port variable does to the configured port: a blank or absent
/// value changes nothing; otherwise the trimmed value must be a port
/// number from 1 to 65535 (`Err` means the value is not a port).
pub open spec fn port_override_of(value: Option<Seq<char>>) -> Result<Option<u16>, ()> {
    match value {
        None => Ok(None),
        Some(v) => if trim(v).len() == 0 {
            Ok(None)
        } else {
            match u64_text(trim(v)) {
                Some(n) => if 1 <= n <= 65535 {
                    Ok(Some(n as u16))
                } else {
                    Err(())
                },
                None => Err(()),
            }
        },
    }
}

/// Reads a port variable.
pub fn port_override(value: Option<&str>) -> (r: Result<Option<u16>, ()>)
    ensures
        r == port_override_of(
            match value {
                Some(v) => Some(v@),
                None => None,
            },
        ),
{
    match value {
        None => Ok(None),
        Some(v) => {
            let t = trim_str(v);
            if t.len() == 0 {
                return Ok(None);
            }
            match parse_u64(&t) {
                Some(n) => {
                    if 1 <= n && n <= 65535 {
                        Ok(Some(n as u16))
                    } else {
                        Err(())
                    }
                },
                None => Err(()),
            }
        },
    }
}

} // verus!
