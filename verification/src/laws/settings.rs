//! The configuration file.

use crate::config::{
    config_dir, config_path, detect_home_dir, init_config, load_or_create_config, path_components,
    save_config, serve_runtime_path, validate_config, BoottyConfig, ConfigError, ConfigFileError,
    HomeVars, LoadedConfig, ServeAuthType, ServeMode,
};
use std::path::PathBuf;
use vstd::prelude::*;
use vstd::string::*;
use vstd::utf8::*;

verus! {

/// A configuration can be used, saved and loaded exactly where its version is the
/// one there is, it names a STUN server and a command, has room for a session, says
/// how visitors are asked in the mode that asks them, and has the hash of a password
/// where it asks for one. What is loaded is what was read, and what is saved is the
/// JSON and a line feed.
pub proof fn config_is_usable_by_its_rules(
    c: BoottyConfig,
    valid: Result<(), ConfigError>,
    json: &str,
    saved: Result<String, ConfigError>,
    path: &str,
    loaded: Result<LoadedConfig, ConfigFileError>,
)
    requires
        call_ensures(validate_config, (&c,), valid),
        call_ensures(save_config, (&c, json), saved),
        call_ensures(load_or_create_config, (path, Some(Ok(c))), loaded),
    ensures
        valid is Ok <==> {
            &&& c.version == 1
            &&& c.network.stun_servers@.len() > 0
            &&& c.host.default_cmd@.len() > 0
            &&& c.serve.max_sessions > 0
            &&& c.serve.mode == ServeMode::LanAuth ==> c.serve.auth.auth_type
                != ServeAuthType::NoAuth
            &&& c.serve.auth.auth_type == ServeAuthType::Password
                ==> c.serve.auth.password_hash is Some
        },
        saved is Ok <==> valid is Ok,
        loaded is Ok <==> valid is Ok,
        saved matches Err(e) ==> valid == Err::<(), _>(e),
        saved matches Ok(s) ==> s@ == json@.push('\n'),
        loaded matches Ok(l) ==> l.config == c && !l.created,
{
    reveal_strlit("\n");
    assert(json@ + "\n"@ =~= json@.push('\n'));
}

/// Of a configuration that breaks several rules, the first is reported.
pub proof fn first_broken_rule_is_reported(c: BoottyConfig, valid: Result<(), ConfigError>)
    requires
        call_ensures(validate_config, (&c,), valid),
    ensures
        c.version != 1 ==> valid == Err::<(), _>(ConfigError::UnsupportedVersion(c.version)),
        c.version == 1 && c.network.stun_servers@.len() == 0 ==> valid == Err::<(), _>(
            ConfigError::NoStunServers,
        ),
        c.version == 1 && c.network.stun_servers@.len() > 0 && c.host.default_cmd@.len() == 0
            ==> valid == Err::<(), _>(ConfigError::NoDefaultCmd),
        c.version == 1 && c.network.stun_servers@.len() > 0 && c.host.default_cmd@.len() > 0
            && c.serve.max_sessions == 0 ==> valid == Err::<(), _>(ConfigError::NoSessions),
        valid == Err::<(), _>(ConfigError::AuthTypeMissing) ==> c.serve.mode == ServeMode::LanAuth
            && c.serve.auth.auth_type == ServeAuthType::NoAuth,
        valid == Err::<(), _>(ConfigError::PasswordHashMissing) ==> c.serve.auth.auth_type
            == ServeAuthType::Password && c.serve.auth.password_hash is None,
        valid != Err::<(), _>(ConfigError::AlreadyExists),
        valid != Err::<(), _>(ConfigError::NoHome),
{
}

/// Where there is no file, and where one is started over, the configuration is the
/// default, which breaks no rule. A file that is there is only started over where
/// that is forced, and one that cannot be read is never passed over.
pub proof fn config_starts_as_the_default(
    path: &str,
    created: Result<LoadedConfig, ConfigFileError>,
    cause: String,
    broken: Result<LoadedConfig, ConfigFileError>,
    present: bool,
    force: bool,
    fresh: Result<BoottyConfig, ConfigError>,
    c: BoottyConfig,
    valid: Result<(), ConfigError>,
)
    requires
        call_ensures(load_or_create_config, (path, None), created),
        call_ensures(load_or_create_config, (path, Some(Err(cause))), broken),
        call_ensures(init_config, (present, force), fresh),
        (created is Ok && c == created->Ok_0.config) || (fresh is Ok && c == fresh->Ok_0),
        call_ensures(validate_config, (&c,), valid),
    ensures
        created matches Ok(l) && l.created,
        broken matches Err(e) && e.cause == cause,
        fresh is Ok <==> !present || force,
        fresh matches Err(e) ==> e == ConfigError::AlreadyExists,
        valid is Ok,
        crate::text::views(c.network.stun_servers@) == seq!["stun:stun.l.google.com:19302"@],
        crate::text::views(c.host.default_cmd@) == seq!["bash"@, "-l"@],
        !c.host.non_interactive,
        c.serve.host@ == "127.0.0.1"@,
        c.serve.port == 2234,
        c.serve.max_sessions == 128,
        c.serve.mode == ServeMode::Local,
        c.serve.auth.auth_type == ServeAuthType::NoAuth,
        c.serve.auth.password_hash is None,
{
    crate::config::default_config_is_valid(c);
}

/// Everything that is kept lies in one directory under the home directory, which
/// `HOME` names, or else `USERPROFILE`.
pub proof fn files_lie_in_one_directory(
    vars: HomeVars,
    home: Result<PathBuf, ConfigError>,
    dir: Result<PathBuf, ConfigError>,
    config: Result<PathBuf, ConfigError>,
    runtime: Result<PathBuf, ConfigError>,
)
    requires
        call_ensures(detect_home_dir, (vars,), home),
        call_ensures(config_dir, (vars,), dir),
        call_ensures(config_path, (vars,), config),
        call_ensures(serve_runtime_path, (vars,), runtime),
    ensures
        vars.home matches Some(p) ==> home == Ok::<_, ConfigError>(p),
        vars.home is None ==> (vars.user_profile matches Some(p) ==> home == Ok::<_, ConfigError>(
            p,
        )),
        vars.home is None && vars.user_profile is None ==> home == Err::<PathBuf, _>(
            ConfigError::NoHome,
        ),
        home is Ok <==> dir is Ok,
        home is Ok <==> config is Ok,
        home is Ok <==> runtime is Ok,
        home matches Ok(p) ==> {
            let base = path_components(p).push(encode_utf8(".bootty"@));
            &&& path_components(dir->Ok_0) == base
            &&& path_components(config->Ok_0) == base.push(encode_utf8("config.json"@))
            &&& path_components(runtime->Ok_0) == base.push(encode_utf8("run"@)).push(
                encode_utf8("serve.json"@),
            )
        },
{
}

} // verus!
