//! The configuration file, the files beside it, and passwords.

use crate::codec::{hex_encode, hex_text, sha256, sha256_digest};
use crate::random::random_bytes;
use crate::text::{decimal, decimal_text, same_text};
use std::path::PathBuf;
use std::time::{Duration, SystemTime, SystemTimeError, UNIX_EPOCH};
use vstd::prelude::*;
use vstd::string::*;
use vstd::utf8::*;

verus! {

/// The only version of the configuration file that is understood.
pub const CONFIG_VERSION: u32 = 1;

pub const DEFAULT_MAX_SESSIONS: usize = 128;

pub const DEFAULT_PORT: u16 = 2234;

pub const DEFAULT_STUN_SERVER: &'static str = "stun:stun.l.google.com:19302";

pub const CONFIG_DIR_NAME: &'static str = ".bootty";

pub const CONFIG_FILE_NAME: &'static str = "config.json";

pub const RUN_DIR_NAME: &'static str = "run";

pub const SERVE_RUNTIME_FILE_NAME: &'static str = "serve.json";

/// Whom the web server serves.
#[derive(Debug, Clone, Copy, PartialEq, Eq, Structural)]
pub enum ServeMode {
    Local,
    LanOpen,
    LanAuth,
}

/// How the web server asks who is there.
#[derive(Debug, Clone, Copy, PartialEq, Eq, Structural)]
pub enum ServeAuthType {
    NoAuth,
    Pin,
    Password,
}

#[derive(Debug, Clone)]
pub struct BoottyConfig {
    pub version: u32,
    pub network: NetworkConfig,
    pub host: HostConfig,
    pub serve: ServeConfig,
}

#[derive(Debug, Clone)]
pub struct NetworkConfig {
    pub stun_servers: Vec<String>,
}

#[derive(Debug, Clone)]
pub struct HostConfig {
    pub default_cmd: Vec<String>,
    pub non_interactive: bool,
}

#[derive(Debug, Clone)]
pub struct ServeConfig {
    pub host: String,
    pub port: u16,
    pub max_sessions: usize,
    pub mode: ServeMode,
    pub auth: ServeAuthConfig,
}

#[derive(Debug, Clone)]
pub struct ServeAuthConfig {
    pub auth_type: ServeAuthType,
    pub password_hash: Option<String>,
}

/// What a running web server leaves for the administrator.
#[derive(Debug, Clone)]
pub struct ServeRuntimeInfo {
    pub pid: u32,
    pub admin_addr: String,
    pub admin_token: String,
    pub started_at_unix: u64,
}

/// Why a configuration, or where it lies, is not acceptable.
#[derive(Debug, Clone, Copy, PartialEq, Eq, Structural)]
pub enum ConfigError {
    UnsupportedVersion(u32),
    NoStunServers,
    NoDefaultCmd,
    NoSessions,
    AuthTypeMissing,
    PasswordHashMissing,
    AlreadyExists,
    NoHome,
}

impl ConfigError {
    /// What the error says.
    pub open spec fn spec_message(self) -> Seq<char> {
        match self {
            ConfigError::UnsupportedVersion(v) => "Unsupported config version: "@ + decimal(
                v as nat,
            ) + ", expected "@ + decimal(CONFIG_VERSION as nat),
            ConfigError::NoStunServers =>
                "Invalid config: network.stun_servers cannot be empty"@,
            ConfigError::NoDefaultCmd => "Invalid config: host.default_cmd cannot be empty"@,
            ConfigError::NoSessions =>
                "Invalid config: serve.max_sessions must be greater than 0"@,
            ConfigError::AuthTypeMissing =>
                "Invalid config: serve.auth.type cannot be none when serve.mode=lan-auth"@,
            ConfigError::PasswordHashMissing =>
                "Invalid config: serve.auth.password_hash is required when serve.auth.type=password"@,
            ConfigError::AlreadyExists =>
                "Config file already exists, use --force to overwrite"@,
            ConfigError::NoHome =>
                "Unable to determine home directory from HOME/USERPROFILE"@,
        }
    }

    pub fn message(&self) -> (r: String)
        ensures
            r@ == self.spec_message(),
    {
        match self {
            ConfigError::UnsupportedVersion(v) => {
                let mut s = "Unsupported config version: ".to_string();
                s.append(decimal_text(*v as u64).as_str());
                s.append(", expected ");
                s.append(decimal_text(CONFIG_VERSION as u64).as_str());
                s
            },
            ConfigError::NoStunServers =>
                "Invalid config: network.stun_servers cannot be empty".to_string(),
            ConfigError::NoDefaultCmd =>
                "Invalid config: host.default_cmd cannot be empty".to_string(),
            ConfigError::NoSessions =>
                "Invalid config: serve.max_sessions must be greater than 0".to_string(),
            ConfigError::AuthTypeMissing =>
                "Invalid config: serve.auth.type cannot be none when serve.mode=lan-auth".to_string(),
            ConfigError::PasswordHashMissing =>
                "Invalid config: serve.auth.password_hash is required when serve.auth.type=password".to_string(),
            ConfigError::AlreadyExists =>
                "Config file already exists, use --force to overwrite".to_string(),
            ConfigError::NoHome =>
                "Unable to determine home directory from HOME/USERPROFILE".to_string(),
        }
    }
}

/// The configuration that is used where none was written.
pub open spec fn is_default_config(c: BoottyConfig) -> bool {
    &&& c.version == CONFIG_VERSION
    &&& crate::text::views(c.network.stun_servers@) == seq!["stun:stun.l.google.com:19302"@]
    &&& crate::text::views(c.host.default_cmd@) == seq!["bash"@, "-l"@]
    &&& !c.host.non_interactive
    &&& c.serve.host@ == "127.0.0.1"@
    &&& c.serve.port == DEFAULT_PORT
    &&& c.serve.max_sessions == DEFAULT_MAX_SESSIONS
    &&& c.serve.mode == ServeMode::Local
    &&& c.serve.auth.auth_type == ServeAuthType::NoAuth
    &&& c.serve.auth.password_hash is None
}

impl Default for BoottyConfig {
    fn default() -> (r: BoottyConfig)
        ensures
            is_default_config(r),
            r.version == 1,
            crate::text::views(r.network.stun_servers@) == seq!["stun:stun.l.google.com:19302"@],
            crate::text::views(r.host.default_cmd@) == seq!["bash"@, "-l"@],
            !r.host.non_interactive,
            r.serve.host@ == "127.0.0.1"@,
            r.serve.port == 2234,
            r.serve.max_sessions == 128,
            r.serve.mode == ServeMode::Local,
            r.serve.auth.auth_type == ServeAuthType::NoAuth,
            r.serve.auth.password_hash is None,
    {
        let mut stun_servers: Vec<String> = Vec::new();
        stun_servers.push(DEFAULT_STUN_SERVER.to_string());
        let mut default_cmd: Vec<String> = Vec::new();
        default_cmd.push("bash".to_string());
        default_cmd.push("-l".to_string());
        assert(crate::text::views(stun_servers@) =~= seq!["stun:stun.l.google.com:19302"@]);
        assert(crate::text::views(default_cmd@) =~= seq!["bash"@, "-l"@]);
        BoottyConfig {
            version: CONFIG_VERSION,
            network: NetworkConfig { stun_servers },
            host: HostConfig { default_cmd, non_interactive: false },
            serve: ServeConfig {
                host: "127.0.0.1".to_string(),
                port: DEFAULT_PORT,
                max_sessions: DEFAULT_MAX_SESSIONS,
                mode: ServeMode::Local,
                auth: ServeAuthConfig { auth_type: ServeAuthType::NoAuth, password_hash: None },
            },
        }
    }
}

/// The first rule that a configuration breaks.
pub open spec fn config_fault(c: BoottyConfig) -> Option<ConfigError> {
    if c.version != CONFIG_VERSION {
        Some(ConfigError::UnsupportedVersion(c.version))
    } else if c.network.stun_servers@.len() == 0 {
        Some(ConfigError::NoStunServers)
    } else if c.host.default_cmd@.len() == 0 {
        Some(ConfigError::NoDefaultCmd)
    } else if c.serve.max_sessions == 0 {
        Some(ConfigError::NoSessions)
    } else if c.serve.mode == ServeMode::LanAuth && c.serve.auth.auth_type == ServeAuthType::NoAuth {
        Some(ConfigError::AuthTypeMissing)
    } else if c.serve.auth.auth_type == ServeAuthType::Password && c.serve.auth.password_hash
        is None {
        Some(ConfigError::PasswordHashMissing)
    } else {
        None
    }
}

/// A configuration breaks no rule exactly where its version is the one there is,
/// it names a STUN server and a command, has room for a session, says how visitors
/// are asked where they are, and has the hash where they are asked for a password.
/// Nothing else stands against it.
pub proof fn config_is_accepted_by_its_rules(c: BoottyConfig)
    ensures
        config_fault(c) is None <==> {
            &&& c.version == 1
            &&& c.network.stun_servers@.len() > 0
            &&& c.host.default_cmd@.len() > 0
            &&& c.serve.max_sessions > 0
            &&& c.serve.mode == ServeMode::LanAuth ==> c.serve.auth.auth_type
                != ServeAuthType::NoAuth
            &&& c.serve.auth.auth_type == ServeAuthType::Password
                ==> c.serve.auth.password_hash is Some
        },
{
}

/// A configuration for a network with visitors who are asked is accepted in both
/// ways of asking: with a PIN, and with a password whose hash is stored.
pub proof fn both_ways_of_asking_are_accepted(c: BoottyConfig, d: BoottyConfig)
    requires
        config_fault(c) is None,
        d == (BoottyConfig { serve: d.serve, ..c }),
        d.serve == (ServeConfig { mode: ServeMode::LanAuth, auth: d.serve.auth, ..c.serve }),
    ensures
        d.serve.auth.auth_type == ServeAuthType::Pin ==> config_fault(d) is None,
        d.serve.auth.auth_type == ServeAuthType::Password && d.serve.auth.password_hash is Some
            ==> config_fault(d) is None,
        d.serve.auth.auth_type == ServeAuthType::NoAuth ==> config_fault(d) == Some(
            ConfigError::AuthTypeMissing,
        ),
{
}

/// Holds a configuration to its rules.
pub fn validate_config(cfg: &BoottyConfig) -> (r: Result<(), ConfigError>)
    ensures
        match r {
            Ok(_) => config_fault(*cfg) is None,
            Err(e) => config_fault(*cfg) == Some(e),
        },
        r is Ok <==> {
            &&& cfg.version == 1
            &&& cfg.network.stun_servers@.len() > 0
            &&& cfg.host.default_cmd@.len() > 0
            &&& cfg.serve.max_sessions > 0
            &&& cfg.serve.mode == ServeMode::LanAuth ==> cfg.serve.auth.auth_type
                != ServeAuthType::NoAuth
            &&& cfg.serve.auth.auth_type == ServeAuthType::Password
                ==> cfg.serve.auth.password_hash is Some
        },
        cfg.version != 1 ==> r == Err::<(), _>(ConfigError::UnsupportedVersion(cfg.version)),
        r == Err::<(), _>(ConfigError::NoStunServers) <==> cfg.version == 1
            && cfg.network.stun_servers@.len() == 0,
        r == Err::<(), _>(ConfigError::NoDefaultCmd) <==> cfg.version == 1
            && cfg.network.stun_servers@.len() > 0 && cfg.host.default_cmd@.len() == 0,
        r == Err::<(), _>(ConfigError::NoSessions) <==> cfg.version == 1
            && cfg.network.stun_servers@.len() > 0 && cfg.host.default_cmd@.len() > 0
            && cfg.serve.max_sessions == 0,
        r == Err::<(), _>(ConfigError::AuthTypeMissing) ==> cfg.serve.mode == ServeMode::LanAuth
            && cfg.serve.auth.auth_type == ServeAuthType::NoAuth,
        r == Err::<(), _>(ConfigError::PasswordHashMissing) ==> cfg.serve.auth.auth_type
            == ServeAuthType::Password && cfg.serve.auth.password_hash is None,
{
    if cfg.version != CONFIG_VERSION {
        return Err(ConfigError::UnsupportedVersion(cfg.version));
    }
    if cfg.network.stun_servers.is_empty() {
        return Err(ConfigError::NoStunServers);
    }
    if cfg.host.default_cmd.is_empty() {
        return Err(ConfigError::NoDefaultCmd);
    }
    if cfg.serve.max_sessions == 0 {
        return Err(ConfigError::NoSessions);
    }
    if cfg.serve.mode == ServeMode::LanAuth && cfg.serve.auth.auth_type == ServeAuthType::NoAuth {
        return Err(ConfigError::AuthTypeMissing);
    }
    if cfg.serve.auth.auth_type == ServeAuthType::Password
        && cfg.serve.auth.password_hash.is_none() {
        return Err(ConfigError::PasswordHashMissing);
    }
    Ok(())
}

/// The default configuration breaks no rule.
pub proof fn default_config_is_valid(c: BoottyConfig)
    requires
        is_default_config(c),
    ensures
        config_fault(c) is None,
{
    assert(crate::text::views(c.network.stun_servers@).len() == 1);
    assert(crate::text::views(c.host.default_cmd@).len() == 2);
}

/// What to do about a configuration file that cannot be used.
pub fn config_recovery_hint() -> (r: &'static str)
    ensures
        r@ == "Hint: run `bootty config init --force` to regenerate config, or run `bootty config path` to locate the file."@,
{
    "Hint: run `bootty config init --force` to regenerate config, or run `bootty config path` to locate the file."
}

/// A configuration file that cannot be used: in what way, and why.
#[derive(Debug, Clone)]
pub struct ConfigFileError {
    pub context: String,
    pub cause: String,
}

/// The words about a configuration file that cannot be used.
pub open spec fn file_context(what: Seq<char>, path: Seq<char>) -> Seq<char> {
    what + path + ". "@
        + "Hint: run `bootty config init --force` to regenerate config, or run `bootty config path` to locate the file."@
}

fn write_file_context(what: &str, path: &str) -> (r: String)
    ensures
        r@ == file_context(what@, path@),
{
    let mut s = what.to_string();
    s.append(path);
    s.append(". ");
    s.append(config_recovery_hint());
    s
}

/// A configuration that a caller asked for, and whether it is new and has to be
/// saved.
#[derive(Debug, Clone)]
pub struct LoadedConfig {
    pub config: BoottyConfig,
    pub created: bool,
}

/// Whether `r` is what becomes of the file at `path`: the default where there is
/// none, what it holds where that breaks no rule, and else what is wrong.
pub open spec fn config_loaded(
    path: Seq<char>,
    stored: Option<Result<BoottyConfig, String>>,
    r: Result<LoadedConfig, ConfigFileError>,
) -> bool {
    match (stored, r) {
        (None, Ok(l)) => l.created && is_default_config(l.config),
        (None, Err(_)) => false,
        (Some(Ok(c)), Ok(l)) => config_fault(c) is None && !l.created && l.config == c,
        (Some(Ok(c)), Err(e)) => {
            &&& config_fault(c) matches Some(f)
            &&& e.cause@ == f.spec_message()
            &&& e.context@ == file_context("Invalid config file: "@, path)
        },
        (Some(Err(_)), Ok(_)) => false,
        (Some(Err(m)), Err(e)) => {
            &&& e.cause == m
            &&& e.context@ == file_context("Failed to parse config file: "@, path)
        },
    }
}

/// Decides on the configuration, given what the file at `path` holds: nothing
/// where there is no file, or what reading it as JSON gave.
pub fn load_or_create_config(path: &str, stored: Option<Result<BoottyConfig, String>>) -> (r:
    Result<LoadedConfig, ConfigFileError>)
    ensures
        config_loaded(path@, stored, r),
        stored is None ==> (r matches Ok(l) && l.created && is_default_config(l.config)),
        stored matches Some(Err(_)) ==> r is Err,
        stored matches Some(Ok(c)) ==> (r is Ok <==> {
            &&& c.version == 1
            &&& c.network.stun_servers@.len() > 0
            &&& c.host.default_cmd@.len() > 0
            &&& c.serve.max_sessions > 0
            &&& c.serve.mode == ServeMode::LanAuth ==> c.serve.auth.auth_type
                != ServeAuthType::NoAuth
            &&& c.serve.auth.auth_type == ServeAuthType::Password
                ==> c.serve.auth.password_hash is Some
        }),
        stored matches Some(Ok(c)) ==> (r matches Ok(l) ==> l.config == c && !l.created),
{
    match stored {
        None => Ok(LoadedConfig { config: BoottyConfig::default(), created: true }),
        Some(Err(cause)) => Err(
            ConfigFileError {
                context: write_file_context("Failed to parse config file: ", path),
                cause,
            },
        ),
        Some(Ok(config)) => match validate_config(&config) {
            Ok(_) => Ok(LoadedConfig { config, created: false }),
            Err(e) => Err(
                ConfigFileError {
                    context: write_file_context("Invalid config file: ", path),
                    cause: e.message(),
                },
            ),
        },
    }
}

/// The contents of a file that holds some JSON: the JSON and a line feed.
pub fn file_text(json: &str) -> (r: String)
    ensures
        r@ == json@.push('\n'),
{
    let mut s = json.to_string();
    s.push('\n');
    s
}

/// Whether `r` is what is written for a configuration with this JSON: the JSON
/// and a line feed where it breaks no rule, and else the rule.
pub open spec fn config_saved(
    cfg: BoottyConfig,
    json: Seq<char>,
    r: Result<String, ConfigError>,
) -> bool {
    match r {
        Ok(s) => config_fault(cfg) is None && s@ == json.push('\n'),
        Err(e) => config_fault(cfg) == Some(e),
    }
}

/// The contents of the configuration file, for a configuration that breaks no
/// rule and the JSON that was written for it.
pub fn save_config(cfg: &BoottyConfig, json: &str) -> (r: Result<String, ConfigError>)
    ensures
        config_saved(*cfg, json@, r),
        r is Ok <==> {
            &&& cfg.version == 1
            &&& cfg.network.stun_servers@.len() > 0
            &&& cfg.host.default_cmd@.len() > 0
            &&& cfg.serve.max_sessions > 0
            &&& cfg.serve.mode == ServeMode::LanAuth ==> cfg.serve.auth.auth_type
                != ServeAuthType::NoAuth
            &&& cfg.serve.auth.auth_type == ServeAuthType::Password
                ==> cfg.serve.auth.password_hash is Some
        },
        r matches Ok(s) ==> s@ == json@ + "\n"@,
{
    proof {
        reveal_strlit("\n");
        assert(json@ + "\n"@ =~= json@.push('\n'));
    }
    match validate_config(cfg) {
        Ok(_) => Ok(file_text(json)),
        Err(e) => Err(e),
    }
}

/// A configuration that could be saved is loaded as it is, each time that reading
/// the file gives it back.
pub proof fn saved_config_loads_as_itself(
    cfg: BoottyConfig,
    json: Seq<char>,
    saved: Result<String, ConfigError>,
    path: Seq<char>,
    loaded: Result<LoadedConfig, ConfigFileError>,
)
    requires
        config_saved(cfg, json, saved),
        saved is Ok,
        config_loaded(path, Some(Ok(cfg)), loaded),
    ensures
        loaded matches Ok(l) && l.config == cfg && !l.created,
{
}

/// A configuration that was created because there was none can be saved.
pub proof fn created_config_can_be_saved(
    path: Seq<char>,
    loaded: Result<LoadedConfig, ConfigFileError>,
    json: Seq<char>,
    saved: Result<String, ConfigError>,
)
    requires
        config_loaded(path, None, loaded),
        config_saved(loaded->Ok_0.config, json, saved),
    ensures
        saved is Ok,
{
    default_config_is_valid(loaded->Ok_0.config);
}

/// The configuration to start over with. A file that exists is only replaced
/// where `force` says so.
pub fn init_config(present: bool, force: bool) -> (r: Result<BoottyConfig, ConfigError>)
    ensures
        match r {
            Ok(c) => (!present || force) && is_default_config(c),
            Err(e) => present && !force && e == ConfigError::AlreadyExists,
        },
{
    if present && !force {
        return Err(ConfigError::AlreadyExists);
    }
    Ok(BoottyConfig::default())
}

/// `std::path::PathBuf`.
#[verifier::external_type_specification]
#[verifier::external_body]
pub struct ExPathBuf(PathBuf);

/// The components of a path, each by its bytes.
pub uninterp spec fn path_components(path: PathBuf) -> Seq<Seq<u8>>;

/// Whether a text is a plain file name: small letters and full stops, with a
/// letter among them.
pub open spec fn is_file_name(name: Seq<char>) -> bool {
    &&& forall|i: int| 0 <= i < name.len() ==> 'a' <= #[trigger] name[i] <= 'z' || name[i] == '.'
    &&& exists|i: int| 0 <= i < name.len() && 'a' <= #[trigger] name[i] <= 'z'
}

/// `Path::join` with a plain file name, which becomes the last component.
#[verifier::external_body]
fn path_join(base: PathBuf, name: &str) -> (r: PathBuf)
    requires
        is_file_name(name@),
    ensures
        path_components(r) == path_components(base).push(encode_utf8(name@)),
{
    base.join(name)
}

/// The environment variables that may name the home directory.
#[derive(Debug, Clone)]
pub struct HomeVars {
    pub home: Option<PathBuf>,
    pub user_profile: Option<PathBuf>,
}

/// The home directory: what `HOME` names, else what `USERPROFILE` names.
pub open spec fn home_of(vars: HomeVars) -> Option<PathBuf> {
    if vars.home is Some {
        vars.home
    } else {
        vars.user_profile
    }
}

/// Picks the home directory.
pub fn detect_home_dir(vars: HomeVars) -> (r: Result<PathBuf, ConfigError>)
    ensures
        match r {
            Ok(p) => home_of(vars) == Some(p),
            Err(e) => home_of(vars) is None && e == ConfigError::NoHome,
        },
        vars.home matches Some(p) ==> r == Ok::<_, ConfigError>(p),
        vars.home is None ==> (vars.user_profile matches Some(p) ==> r == Ok::<_, ConfigError>(p)),
        r is Err <==> vars.home is None && vars.user_profile is None,
{
    if let Some(home) = vars.home {
        return Ok(home);
    }
    if let Some(home) = vars.user_profile {
        return Ok(home);
    }
    Err(ConfigError::NoHome)
}

/// Whether `r` is the path with the components `below` under the home
/// directory, or the error that there is none.
pub open spec fn under_home(
    vars: HomeVars,
    below: Seq<Seq<u8>>,
    r: Result<PathBuf, ConfigError>,
) -> bool {
    match r {
        Ok(p) => home_of(vars) is Some && path_components(p) == path_components(home_of(vars)->0)
            + below,
        Err(e) => home_of(vars) is None && e == ConfigError::NoHome,
    }
}

/// What is kept under the home directory lies where `HOME` says, and where
/// `USERPROFILE` says only if `HOME` says nothing.
pub proof fn files_lie_under_home(
    vars: HomeVars,
    below: Seq<Seq<u8>>,
    r: Result<PathBuf, ConfigError>,
)
    requires
        under_home(vars, below, r),
    ensures
        vars.home matches Some(home) ==> (r matches Ok(p) && path_components(p)
            == path_components(home) + below),
        vars.home is None ==> (vars.user_profile matches Some(home) ==> (r matches Ok(p)
            && path_components(p) == path_components(home) + below)),
        vars.home is None && vars.user_profile is None ==> r == Err::<PathBuf, _>(
            ConfigError::NoHome,
        ),
{
}

/// The directory of the configuration.
pub fn config_dir(vars: HomeVars) -> (r: Result<PathBuf, ConfigError>)
    ensures
        under_home(vars, seq![encode_utf8(".bootty"@)], r),
{
    match detect_home_dir(vars) {
        Ok(home) => {
            proof {
                reveal_strlit(".bootty");
                assert(".bootty"@[1] == 'b');
            }
            let path = path_join(home, CONFIG_DIR_NAME);
            assert(path_components(path) =~= path_components(home_of(vars)->0) + seq![encode_utf8(".bootty"@)]);
            Ok(path)
        },
        Err(e) => Err(e),
    }
}

/// The directory of what a running web server leaves.
pub fn run_dir(vars: HomeVars) -> (r: Result<PathBuf, ConfigError>)
    ensures
        under_home(vars, seq![encode_utf8(".bootty"@), encode_utf8("run"@)], r),
{
    match config_dir(vars) {
        Ok(dir) => {
            proof {
                reveal_strlit("run");
                assert("run"@[0] == 'r');
            }
            let path = path_join(dir, RUN_DIR_NAME);
            assert(path_components(path) =~= path_components(home_of(vars)->0) + seq![encode_utf8(".bootty"@), encode_utf8("run"@)]);
            Ok(path)
        },
        Err(e) => Err(e),
    }
}

/// The configuration file.
pub fn config_path(vars: HomeVars) -> (r: Result<PathBuf, ConfigError>)
    ensures
        under_home(vars, seq![encode_utf8(".bootty"@), encode_utf8("config.json"@)], r),
{
    match config_dir(vars) {
        Ok(dir) => {
            proof {
                reveal_strlit("config.json");
                assert("config.json"@[0] == 'c');
            }
            let path = path_join(dir, CONFIG_FILE_NAME);
            assert(path_components(path) =~= path_components(home_of(vars)->0) + seq![encode_utf8(".bootty"@), encode_utf8("config.json"@)]);
            Ok(path)
        },
        Err(e) => Err(e),
    }
}

/// The file that a running web server leaves.
pub fn serve_runtime_path(vars: HomeVars) -> (r: Result<PathBuf, ConfigError>)
    ensures
        under_home(
            vars,
            seq![encode_utf8(".bootty"@), encode_utf8("run"@), encode_utf8("serve.json"@)],
            r,
        ),
{
    match run_dir(vars) {
        Ok(dir) => {
            proof {
                reveal_strlit("serve.json");
                assert("serve.json"@[0] == 's');
            }
            let path = path_join(dir, SERVE_RUNTIME_FILE_NAME);
            assert(path_components(path) =~= path_components(home_of(vars)->0) + seq![encode_utf8(".bootty"@), encode_utf8("run"@), encode_utf8("serve.json"@)]);
            Ok(path)
        },
        Err(e) => Err(e),
    }
}

/// `std::time::SystemTime`.
#[verifier::external_type_specification]
#[verifier::external_body]
pub struct ExSystemTime(SystemTime);

/// `std::time::SystemTimeError`: a time before the one it was measured from.
#[verifier::external_type_specification]
#[verifier::external_body]
pub struct ExSystemTimeError(SystemTimeError);

/// `SystemTime::now`. What the clock says is left open.
#[verifier::external_body]
fn clock() -> (r: SystemTime) {
    SystemTime::now()
}

/// How long after the Unix epoch a time is; nothing where it is before.
pub uninterp spec fn epoch_distance(t: SystemTime) -> Option<Duration>;

/// The whole seconds of a duration.
pub uninterp spec fn duration_seconds(d: Duration) -> u64;

/// `SystemTime::duration_since` the Unix epoch: a function of the time, with an
/// error where it is before the epoch.
#[verifier::external_body]
fn since_epoch(t: SystemTime) -> (r: Result<Duration, SystemTimeError>)
    ensures
        match r {
            Ok(d) => epoch_distance(t) == Some(d),
            Err(_) => epoch_distance(t) is None,
        },
{
    t.duration_since(UNIX_EPOCH)
}

/// `Duration::as_secs`: a function of the duration.
#[verifier::external_body]
fn whole_seconds(d: Duration) -> (r: u64)
    ensures
        r == duration_seconds(d),
{
    d.as_secs()
}

/// The seconds that a clock reading counts, and none for a clock before the
/// epoch.
pub fn seconds_or_zero(reading: Option<u64>) -> (r: u64)
    ensures
        r == (match reading {
            Some(s) => s,
            None => 0,
        }),
{
    match reading {
        Some(s) => s,
        None => 0,
    }
}

/// The seconds from the Unix epoch to a time, zero where the time is before it.
pub open spec fn unix_seconds(t: SystemTime) -> u64 {
    match epoch_distance(t) {
        Some(d) => duration_seconds(d),
        None => 0,
    }
}

/// The seconds since the Unix epoch, zero where the clock stands before it.
/// What the clock says is left open.
pub fn now_unix_secs() -> (r: u64)
    ensures
        exists|t: SystemTime| r == #[trigger] unix_seconds(t),
        exists|t: SystemTime|
            r == (match #[trigger] epoch_distance(t) {
                Some(d) => duration_seconds(d),
                None => 0,
            }),
{
    let now = clock();
    let reading = match since_epoch(now) {
        Ok(d) => Some(whole_seconds(d)),
        Err(_) => None,
    };
    let seconds: u64 = seconds_or_zero(reading);
    assert(seconds == unix_seconds(now));
    seconds
}

/// Why a password cannot be hashed or checked.
#[derive(Debug, Clone)]
pub enum PasswordError {
    Empty,
    Format,
    Algorithm(String),
}

impl PasswordError {
    /// What the error says.
    pub open spec fn spec_message(self) -> Seq<char> {
        match self {
            PasswordError::Empty => "Password cannot be empty"@,
            PasswordError::Format => "Invalid password hash format"@,
            PasswordError::Algorithm(a) => "Unsupported password hash algorithm: "@ + a@,
        }
    }

    pub fn message(&self) -> (r: String)
        ensures
            r@ == self.spec_message(),
    {
        match self {
            PasswordError::Empty => "Password cannot be empty".to_string(),
            PasswordError::Format => "Invalid password hash format".to_string(),
            PasswordError::Algorithm(a) => {
                let mut s = "Unsupported password hash algorithm: ".to_string();
                s.append(a.as_str());
                s
            },
        }
    }
}

/// The parts of a text between its colons.
pub open spec fn colon_parts(s: Seq<char>) -> Seq<Seq<char>>
    decreases s.len(),
{
    if s.len() == 0 {
        seq![Seq::<char>::empty()]
    } else {
        let before = colon_parts(s.drop_last());
        if s.last() == ':' {
            before.push(Seq::empty())
        } else {
            before.drop_last().push(before.last().push(s.last()))
        }
    }
}

fn split_colons(s: &str) -> (r: Vec<String>)
    ensures
        crate::text::views(r@) == colon_parts(s@),
{
    let mut parts: Vec<String> = Vec::new();
    let mut current = String::new();
    assert(s@.take(0) =~= Seq::<char>::empty());
    assert(crate::text::views(parts@).push(current@) =~= colon_parts(s@.take(0)));
    for c in it: s.chars()
        invariant
            it.seq() == s@,
            crate::text::views(parts@).push(current@) == colon_parts(s@.take(it.index() as int)),
    {
        let ghost n = it.index() as int;
        let ghost done = parts@;
        let ghost text = current@;
        assert(s@.take(n + 1).drop_last() =~= s@.take(n));
        assert(s@.take(n + 1).last() == c);
        if c == ':' {
            parts.push(current);
            current = String::new();
            assert(crate::text::views(parts@) =~= crate::text::views(done).push(text));
        } else {
            current.push(c);
            assert(crate::text::views(done).push(text).drop_last() =~= crate::text::views(done));
        }
    }
    assert(s@.take(s@.len() as int) =~= s@);
    let ghost done = parts@;
    let ghost text = current@;
    parts.push(current);
    assert(crate::text::views(parts@) =~= crate::text::views(done).push(text));
    parts
}

/// The digest of a salted password, in hexadecimal.
pub open spec fn password_digest(salt: Seq<char>, password: Seq<char>) -> Seq<char> {
    hex_text(sha256_digest(encode_utf8(salt) + seq![58u8] + encode_utf8(password)))
}

fn sha256_hex_with_salt(salt_hex: &str, password: &str) -> (r: String)
    ensures
        r@ == password_digest(salt_hex@, password@),
{
    let mut message = salt_hex.as_bytes_vec();
    message.push(58u8);
    let mut tail = password.as_bytes_vec();
    message.append(&mut tail);
    assert(message@ =~= encode_utf8(salt_hex@) + seq![58u8] + encode_utf8(password@));
    hex_encode(sha256(message.as_slice()).as_slice())
}

/// The stored form of a password under a salt.
pub open spec fn stored_password(salt: Seq<u8>, password: Seq<char>) -> Seq<char> {
    "sha256:"@ + hex_text(salt) + ":"@ + password_digest(hex_text(salt), password)
}

/// The stored form of a password under a salt that was drawn.
pub fn hash_password_with_salt(password: &str, salt: &Vec<u8>) -> (r: Result<
    String,
    PasswordError,
>)
    ensures
        match r {
            Ok(s) => password@.len() > 0 && s@ == stored_password(salt@, password@),
            Err(e) => password@.len() == 0 && e is Empty,
        },
        r is Ok <==> password@.len() > 0,
        r matches Ok(s) ==> s@ == "sha256:"@ + hex_text(salt@) + ":"@ + hex_text(
            sha256_digest(encode_utf8(hex_text(salt@)) + seq![58u8] + encode_utf8(password@)),
        ),
{
    if password.is_empty() {
        return Err(PasswordError::Empty);
    }
    let salt_hex = hex_encode(salt.as_slice());
    let digest = sha256_hex_with_salt(salt_hex.as_str(), password);
    let mut s = "sha256:".to_string();
    s.append(salt_hex.as_str());
    s.append(":");
    s.append(digest.as_str());
    Ok(s)
}

/// The length of the salt of a stored password, in bytes.
pub const SALT_LEN: usize = 16;

/// The stored form of a password, under a salt that chance picks.
pub fn hash_password(password: &str) -> (r: Result<String, PasswordError>)
    ensures
        match r {
            Ok(s) => password@.len() > 0 && exists|salt: Seq<u8>|
                salt.len() == SALT_LEN && s@ == #[trigger] stored_password(salt, password@),
            Err(e) => password@.len() == 0 && e is Empty,
        },
        r matches Ok(s) ==> exists|salt: Seq<u8>|
            salt.len() == 16 && s@ == "sha256:"@ + #[trigger] hex_text(salt) + ":"@ + hex_text(
                sha256_digest(encode_utf8(hex_text(salt)) + seq![58u8] + encode_utf8(password@)),
            ),
{
    let salt = random_bytes(SALT_LEN);
    hash_password_with_salt(password, &salt)
}

/// Whether `r` is what checking a password against a stored form gives: three
/// parts between colons, of which the first names the algorithm, the second is
/// the salt and the third the digest.
pub open spec fn password_check(
    password: Seq<char>,
    encoded: Seq<char>,
    r: Result<bool, PasswordError>,
) -> bool {
    let parts = colon_parts(encoded);
    if parts.len() != 3 {
        r matches Err(e) && e is Format
    } else if parts[0] != "sha256"@ {
        r matches Err(PasswordError::Algorithm(a)) && a@ == parts[0]
    } else {
        r matches Ok(b) && b == (password_digest(parts[1], password) == parts[2])
    }
}

/// What checking a password against a stored form gives: whether it fits, or what
/// is wrong with the stored form.
pub open spec fn password_verdict(password: Seq<char>, encoded: Seq<char>) -> Result<
    bool,
    Seq<char>,
> {
    let parts = colon_parts(encoded);
    if parts.len() != 3 {
        Err(PasswordError::Format.spec_message())
    } else if parts[0] != "sha256"@ {
        Err("Unsupported password hash algorithm: "@ + parts[0])
    } else {
        Ok(password_digest(parts[1], password) == parts[2])
    }
}

/// Checks a password against a stored form.
pub fn verify_password(password: &str, encoded: &str) -> (r: Result<bool, PasswordError>)
    ensures
        password_check(password@, encoded@, r),
{
    let parts = split_colons(encoded);
    let ghost views = crate::text::views(parts@);
    if parts.len() != 3 {
        return Err(PasswordError::Format);
    }
    assert(views[0] == parts@[0]@ && views[1] == parts@[1]@ && views[2] == parts@[2]@);
    if !same_text(parts[0].as_str(), "sha256") {
        return Err(PasswordError::Algorithm(parts[0].clone()));
    }
    let digest = sha256_hex_with_salt(parts[1].as_str(), password);
    Ok(same_text(digest.as_str(), parts[2].as_str()))
}

proof fn colon_parts_extend(a: Seq<char>, b: Seq<char>)
    requires
        forall|i: int| 0 <= i < b.len() ==> #[trigger] b[i] != ':',
    ensures
        colon_parts(a).len() >= 1,
        colon_parts(a + b) == colon_parts(a).drop_last().push(colon_parts(a).last() + b),
    decreases a.len() + b.len(),
{
    if b.len() > 0 {
        assert((a + b).drop_last() =~= a + b.drop_last());
        assert((a + b).last() == b.last());
        colon_parts_extend(a, b.drop_last());
        let before = colon_parts(a + b.drop_last());
        assert(before.drop_last() =~= colon_parts(a).drop_last());
        assert(before.last().push(b.last()) =~= colon_parts(a).last() + b);
    } else {
        if a.len() > 0 {
            colon_parts_extend(a.drop_last(), Seq::empty());
        }
        assert(a + b =~= a);
        assert(colon_parts(a).last() + b =~= colon_parts(a).last());
        assert(colon_parts(a).drop_last().push(colon_parts(a).last()) =~= colon_parts(a));
    }
}

proof fn hex_text_has_no_colon(bytes: Seq<u8>)
    ensures
        forall|i: int| 0 <= i < hex_text(bytes).len() ==> #[trigger] hex_text(bytes)[i] != ':',
{
    assert forall|i: int| 0 <= i < hex_text(bytes).len() implies #[trigger] hex_text(bytes)[i]
        != ':' by {
        assert(0 <= i / 2 < bytes.len());
    }
}

/// Three texts without colons, written with colons between them, are the parts of
/// what is written.
pub proof fn colons_part_a_text(a: Seq<char>, b: Seq<char>, c: Seq<char>)
    requires
        !a.contains(':'),
        !b.contains(':'),
        !c.contains(':'),
    ensures
        colon_parts(a + seq![':'] + b + seq![':'] + c) == seq![a, b, c],
{
    let none = Seq::<char>::empty();
    let colon = seq![':'];
    assert(forall|i: int| 0 <= i < a.len() ==> a.contains(#[trigger] a[i]));
    assert(forall|i: int| 0 <= i < b.len() ==> b.contains(#[trigger] b[i]));
    assert(forall|i: int| 0 <= i < c.len() ==> c.contains(#[trigger] c[i]));
    colon_parts_extend(none, a);
    assert(none + a =~= a);
    assert(colon_parts(a) =~= seq![a]);
    let first = a + colon;
    assert(first.drop_last() =~= a);
    assert(colon_parts(first) =~= seq![a, none]);
    colon_parts_extend(first, b);
    assert(none + b =~= b);
    let second = first + b;
    assert(colon_parts(second) =~= seq![a, b]);
    let third = second + colon;
    assert(third.drop_last() =~= second);
    assert(colon_parts(third) =~= seq![a, b, none]);
    colon_parts_extend(third, c);
    assert(none + c =~= c);
    assert(colon_parts(third + c) =~= seq![a, b, c]);
    assert(a + colon + b + colon + c =~= third + c);
}

/// The parts of a text, with colons between them, are the text; and no part holds
/// a colon.
pub proof fn parts_make_up_the_text(s: Seq<char>)
    ensures
        colon_parts(s).len() >= 1,
        crate::text::joined(colon_parts(s), seq![':']) == s,
        forall|i: int|
            0 <= i < colon_parts(s).len() ==> !(#[trigger] colon_parts(s)[i]).contains(':'),
    decreases s.len(),
{
    let parts = colon_parts(s);
    if s.len() == 0 {
        assert(crate::text::joined(parts, seq![':']) =~= s);
    } else {
        let before = colon_parts(s.drop_last());
        parts_make_up_the_text(s.drop_last());
        let init = before.drop_last();
        let last = before.last();
        assert(before =~= init + seq![last]);
        assert(!before[before.len() - 1].contains(':'));
        if init.len() > 0 {
            crate::text::joined_falls_apart(init, seq![last], seq![':']);
        }
        assert(crate::text::joined(seq![last], seq![':']) == last);
        if s.last() == ':' {
            let none = Seq::<char>::empty();
            crate::text::joined_falls_apart(before, seq![none], seq![':']);
            assert(parts =~= before + seq![none]);
            assert(crate::text::joined(seq![none], seq![':']) == none);
            assert(s.drop_last() + seq![':'] + none =~= s);
        } else {
            let longer = last.push(s.last());
            assert(parts =~= init + seq![longer]);
            assert(crate::text::joined(seq![longer], seq![':']) == longer);
            if init.len() > 0 {
                crate::text::joined_falls_apart(init, seq![longer], seq![':']);
                let j = crate::text::joined(init, seq![':']);
                assert((j + seq![':'] + last).push(s.last()) =~= j + seq![':'] + longer);
            }
            assert(s.drop_last().push(s.last()) =~= s);
            assert(!longer.contains(':')) by {
                if longer.contains(':') {
                    let k = longer.index_of(':');
                    assert(longer[k] == ':');
                    assert(last[k] == ':');
                }
            }
        }
        assert forall|i: int| 0 <= i < parts.len() implies !(#[trigger] parts[i]).contains(':') by {
            if i < before.len() - 1 {
                assert(parts[i] == before[i]);
            }
        }
    }
}

/// A stored password falls apart into its algorithm, its salt and its digest.
pub proof fn stored_password_parts(salt: Seq<u8>, password: Seq<char>)
    ensures
        colon_parts(stored_password(salt, password)) == seq![
            "sha256"@,
            hex_text(salt),
            password_digest(hex_text(salt), password),
        ],
{
    let algorithm = "sha256"@;
    let salt_text = hex_text(salt);
    let digest = password_digest(salt_text, password);
    reveal_strlit("sha256");
    reveal_strlit("sha256:");
    reveal_strlit(":");
    let none = Seq::<char>::empty();
    let colon = seq![':'];
    assert("sha256:"@ =~= algorithm + colon);
    assert(":"@ =~= colon);
    assert(forall|i: int| 0 <= i < algorithm.len() ==> #[trigger] algorithm[i] != ':');
    hex_text_has_no_colon(salt);
    hex_text_has_no_colon(sha256_digest(encode_utf8(salt_text) + seq![58u8] + encode_utf8(password)));

    colon_parts_extend(none, algorithm);
    assert(none + algorithm =~= algorithm);
    assert(colon_parts(algorithm) =~= seq![algorithm]);

    let first = algorithm + colon;
    assert(first.drop_last() =~= algorithm);
    assert(colon_parts(first) =~= seq![algorithm, none]);
    colon_parts_extend(first, salt_text);
    assert(none + salt_text =~= salt_text);
    let second = first + salt_text;
    assert(colon_parts(second) =~= seq![algorithm, salt_text]);

    let third = second + colon;
    assert(third.drop_last() =~= second);
    assert(colon_parts(third) =~= seq![algorithm, salt_text, none]);
    colon_parts_extend(third, digest);
    assert(none + digest =~= digest);
    assert(colon_parts(third + digest) =~= seq![algorithm, salt_text, digest]);
    assert(stored_password(salt, password) =~= third + digest);
}

/// Checking a password against what was stored for a password never fails, and
/// says yes exactly where both have one digest under the salt; so it says yes
/// to the password that was stored.
pub proof fn stored_password_checks(
    salt: Seq<u8>,
    password: Seq<char>,
    given: Seq<char>,
    r: Result<bool, PasswordError>,
)
    requires
        password_check(given, stored_password(salt, password), r),
    ensures
        r matches Ok(b) && b == (password_digest(hex_text(salt), given) == password_digest(
            hex_text(salt),
            password,
        )),
        given == password ==> r == Ok::<bool, PasswordError>(true),
{
    stored_password_parts(salt, password);
}

} // verus!
