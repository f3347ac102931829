//! Typed readers over the editor-supplied settings document.
//!
//! Each logical setting is resolved by one function that performs its own
//! legacy-alias fallback internally; the raw document never travels past
//! this boundary.

use vstd::prelude::*;
use crate::json::{Json, Jv, spec_obj_get, obj_get};
use crate::platform::Os;
use crate::strutil::{ascii_lower, lower_char, replace, replace_all, str_eq};
use crate::error::BridgeError;

verus! {

/// The update-check policy for downloaded artifacts.
#[derive(Clone, Copy, Debug, PartialEq, Eq, Structural)]
pub enum CheckUpdates {
    Always,
    Once,
    Never,
}

impl Default for CheckUpdates {
    /// Checking on every start is the default policy.
    fn default() -> (r: Self)
        ensures
            r == CheckUpdates::Always,
    {
        CheckUpdates::Always
    }
}

/// View of an optional settings document.
pub open spec fn opt_jv(config: Option<Json>) -> Option<Jv> {
    match config {
        Some(j) => Some(j@),
        None => None,
    }
}

/// Looks a key up in an optional document.
pub open spec fn spec_get_in(v: Option<Jv>, key: Seq<char>) -> Option<Jv> {
    match v {
        Some(x) => spec_obj_get(x, key),
        None => None,
    }
}

/// The first of two lookups that produced a value.
pub open spec fn spec_first_of(a: Option<Jv>, b: Option<Jv>) -> Option<Jv> {
    if a is Some {
        a
    } else {
        b
    }
}

/// The update-check mode a settings string selects: matching is
/// ASCII-case-insensitive, and anything unrecognised selects the default.
pub open spec fn spec_mode_of(s: Seq<char>) -> CheckUpdates {
    let l = s.map_values(|c: char| lower_char(c));
    if l == "once"@ {
        CheckUpdates::Once
    } else if l == "never"@ {
        CheckUpdates::Never
    } else {
        CheckUpdates::Always
    }
}

/// The update-check mode of a settings document: the `check_updates`
/// string setting, defaulting to `Always`.
pub open spec fn spec_update_check_mode(cfg: Option<Jv>) -> CheckUpdates {
    match spec_get_in(cfg, "check_updates"@) {
        Some(Jv::Str(s)) => spec_mode_of(s),
        _ => CheckUpdates::Always,
    }
}

/// Reads the update-check mode from the settings document.
pub fn get_update_check_mode(configuration: &Option<Json>) -> (r: CheckUpdates)
    ensures
        r == spec_update_check_mode(opt_jv(*configuration)),
{
    if let Some(cfg) = configuration {
        if let Some(v) = obj_get(cfg, "check_updates") {
            if let Json::Str(s) = v {
                let l = ascii_lower(s.as_str());
                if str_eq(l.as_str(), "once") {
                    return CheckUpdates::Once;
                }
                if str_eq(l.as_str(), "never") {
                    return CheckUpdates::Never;
                }
                return CheckUpdates::Always;
            }
        }
    }
    CheckUpdates::Always
}

/// Whether the user opted into automatic runtime download: the
/// `jdk_auto_download` boolean setting, defaulting to `false`.
pub open spec fn spec_java_autodownload(cfg: Option<Jv>) -> bool {
    spec_get_in(cfg, "jdk_auto_download"@) == Some(Jv::Bool(true))
}

/// Reads the auto-download opt-in from the settings document.
pub fn is_java_autodownload(configuration: &Option<Json>) -> (r: bool)
    ensures
        r == spec_java_autodownload(opt_jv(*configuration)),
{
    if let Some(cfg) = configuration {
        if let Some(v) = obj_get(cfg, "jdk_auto_download") {
            if let Json::Bool(b) = v {
                return *b;
            }
        }
    }
    false
}

/// The annotation-agent setting a document selects: `lombok_support`, with
/// the legacy alias `java/jdt/ls/lombokSupport/enabled`; anything but an
/// explicit `false` enables the agent.
pub open spec fn spec_lombok_enabled(cfg: Option<Jv>) -> bool {
    let legacy = spec_get_in(
        spec_get_in(
            spec_get_in(spec_get_in(spec_get_in(cfg, "java"@), "jdt"@), "ls"@),
            "lombokSupport"@,
        ),
        "enabled"@,
    );
    let chosen = spec_first_of(spec_get_in(cfg, "lombok_support"@), legacy);
    chosen != Some(Jv::Bool(false))
}

/// Reads the annotation-agent toggle from the settings document.
pub fn is_lombok_enabled(configuration: &Option<Json>) -> (r: bool)
    ensures
        r == spec_lombok_enabled(opt_jv(*configuration)),
{
    if let Some(cfg) = configuration {
        if let Some(v) = obj_get(cfg, "lombok_support") {
            return !matches!(v, Json::Bool(false));
        }
        if let Some(java) = obj_get(cfg, "java") {
            if let Some(jdt) = obj_get(java, "jdt") {
                if let Some(ls) = obj_get(jdt, "ls") {
                    if let Some(sup) = obj_get(ls, "lombokSupport") {
                        if let Some(v) = obj_get(sup, "enabled") {
                            return !matches!(v, Json::Bool(false));
                        }
                    }
                }
            }
        }
    }
    true
}

/// Expansion of a leading-`~` path: on Windows the path is kept as is; on
/// the other platforms every `~` becomes the home directory, which must be
/// known.
pub open spec fn spec_expand_home(os: Os, home: Option<Seq<char>>, path: Seq<char>) -> Result<
    Seq<char>,
    BridgeError,
> {
    if os == Os::Windows {
        Ok(path)
    } else {
        match home {
            Some(h) => Ok(replace_all(path, "~"@, h)),
            None => Err(BridgeError::ExpandHome),
        }
    }
}

/// Expands `~` in `path` against the home directory the host reported.
pub fn expand_home_path(os: Os, home: Option<&str>, path: &str) -> (r: Result<
    String,
    BridgeError,
>)
    ensures
        match r {
            Ok(p) => spec_expand_home(
                os,
                match home {
                    Some(h) => Some(h@),
                    None => None,
                },
                path@,
            ) == Ok::<Seq<char>, BridgeError>(p@),
            Err(e) => spec_expand_home(
                os,
                match home {
                    Some(h) => Some(h@),
                    None => None,
                },
                path@,
            ) == Err::<Seq<char>, BridgeError>(e),
        },
{
    if matches!(os, Os::Windows) {
        return Ok(path.to_owned());
    }
    match home {
        Some(h) => {
            proof {
                reveal_strlit("~");
            }
            Ok(replace(path, "~", h))
        },
        None => Err(BridgeError::ExpandHome),
    }
}

/// The runtime home a settings document and environment select: the
/// `java_home` setting (legacy alias `java/home`) with `~` expanded, falling
/// back to a non-empty `JAVA_HOME` environment value.  A setting whose `~`
/// cannot be expanded falls through to the environment.
pub open spec fn spec_java_home(
    cfg: Option<Jv>,
    os: Os,
    home: Option<Seq<char>>,
    java_home_env: Option<Seq<char>>,
) -> Option<Seq<char>> {
    let env_fallback = match java_home_env {
        Some(v) => if v.len() > 0 {
            Some(v)
        } else {
            None
        },
        None => None,
    };
    let chosen = spec_first_of(
        spec_get_in(cfg, "java_home"@),
        spec_get_in(spec_get_in(cfg, "java"@), "home"@),
    );
    match chosen {
        Some(Jv::Str(p)) => match spec_expand_home(os, home, p) {
            Ok(e) => Some(e),
            Err(_) => env_fallback,
        },
        _ => env_fallback,
    }
}

/// Resolves the configured runtime home, if any.
///
/// `home` and `java_home_env` are the `HOME` and `JAVA_HOME` values of the
/// host shell environment.
pub fn get_java_home(
    configuration: &Option<Json>,
    os: Os,
    home: Option<String>,
    java_home_env: Option<String>,
) -> (r: Option<String>)
    ensures
        match r {
            Some(p) => spec_java_home(
                opt_jv(*configuration),
                os,
                match home {
                    Some(h) => Some(h@),
                    None => None,
                },
                match java_home_env {
                    Some(v) => Some(v@),
                    None => None,
                },
            ) == Some(p@),
            None => spec_java_home(
                opt_jv(*configuration),
                os,
                match home {
                    Some(h) => Some(h@),
                    None => None,
                },
                match java_home_env {
                    Some(v) => Some(v@),
                    None => None,
                },
            ) is None,
        },
{
    let env_fallback: Option<String> = match &java_home_env {
        Some(v) => {
            if v.as_str().unicode_len() > 0 {
                Some(v.clone())
            } else {
                None
            }
        },
        None => None,
    };
    let mut chosen: Option<&Json> = None;
    if let Some(cfg) = configuration {
        chosen = obj_get(cfg, "java_home");
        if chosen.is_none() {
            if let Some(java) = obj_get(cfg, "java") {
                chosen = obj_get(java, "home");
            }
        }
    }
    match chosen {
        Some(Json::Str(p)) => {
            let home_ref: Option<&str> = match &home {
                Some(h) => Some(h.as_str()),
                None => None,
            };
            match expand_home_path(os, home_ref, p.as_str()) {
                Ok(e) => Some(e),
                Err(_) => env_fallback,
            }
        },
        _ => env_fallback,
    }
}

/// The workspace settings carried inside initialization options, used when
/// no explicit settings document exists.
pub fn settings_from_init_options(options: &Json) -> (r: Option<Json>)
    ensures
        match r {
            Some(s) => spec_obj_get(options@, "settings"@) == Some(s@),
            None => spec_obj_get(options@, "settings"@) is None,
        },
{
    match obj_get(options, "settings") {
        Some(s) => Some(crate::json::json_clone(s)),
        None => None,
    }
}

} // verus!
