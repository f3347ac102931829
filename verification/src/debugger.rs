//! The debug-protocol plugin and the debug-configuration injector.
//!
//! The plugin jar is resolved like every other artifact; its canonical
//! path is injected into the language server's initialization options.  A
//! host-supplied launch configuration is rewritten here: the entry point
//! is resolved against collaborator candidates, reserved classpath scope
//! markers are replaced by resolved entries, the working directory is
//! defaulted, and a workspace-folder placeholder is substituted after
//! serialization.

use vstd::prelude::*;
use crate::error::BridgeError;
use crate::json::{
    Json, Jv, jtext, jv_of, jv_of_kvs, jv_of_seq, jv_strings, json_clone, obj_get, obj_push,
    spec_kvs_get, spec_obj_get, to_json_string,
};
use crate::lsp::{LspClient, MainClassEntry};
use crate::strutil::{path_join, join_spec, replace, replace_all, str_eq};

verus! {

/// Resolver and injector for the debug-protocol plugin.
pub struct Debugger {
    lsp: LspClient,
    plugin_path: Option<String>,
}

impl Debugger {
    /// The resolved plugin path, if any.
    pub closed spec fn spec_plugin_path(&self) -> Option<Seq<char>> {
        match self.plugin_path {
            Some(p) => Some(p@),
            None => None,
        }
    }

    /// Creates a debugger with no plugin resolved yet.
    pub fn new(lsp: LspClient) -> (r: Debugger)
        ensures
            r.spec_plugin_path() is None,
    {
        Debugger { plugin_path: None, lsp }
    }

    /// Whether the plugin has been resolved.
    pub fn loaded(&self) -> (r: bool)
        ensures
            r == (self.spec_plugin_path() is Some),
    {
        self.plugin_path.is_some()
    }

    /// The client used to reach the running language server.
    pub fn lsp(&self) -> &LspClient {
        &self.lsp
    }

    /// Records a freshly resolved plugin path.
    pub fn set_plugin_path(&mut self, path: String)
        ensures
            final(self).spec_plugin_path() == Some(path@),
    {
        self.plugin_path = Some(path);
    }

    /// The resolved plugin path, for the embedding layer.
    pub fn plugin_path(&self) -> (r: Option<&String>)
        ensures
            match r {
                Some(p) => self.spec_plugin_path() == Some(p@),
                None => self.spec_plugin_path() is None,
            },
    {
        self.plugin_path.as_ref()
    }
}

/// The install root for plugin versions.
pub fn debugger_install_dir() -> (r: String)
    ensures
        r@ == "debugger"@,
{
    "debugger".to_owned()
}

/// The pinned plugin release the fork distributes.
pub fn fork_plugin_version() -> (r: String)
    ensures
        r@ == "0.53.2"@,
{
    "0.53.2".to_owned()
}

/// The download URL of the pinned fork release.
pub fn fork_plugin_url() -> (r: String)
    ensures
        r@
            == "https://github.com/zed-industries/java-debug/releases/download/0.53.2/com.microsoft.java.debug.plugin-0.53.2.jar"@,
{
    "https://github.com/zed-industries/java-debug/releases/download/0.53.2/com.microsoft.java.debug.plugin-0.53.2.jar".to_owned()
}

/// A structured view over the host-supplied launch configuration.  Fields
/// the injector does not touch pass through verbatim.
#[derive(Debug)]
pub struct DebugLaunchConfig {
    pub request: String,
    pub project_name: Option<String>,
    pub main_class: Option<String>,
    pub args: Option<String>,
    pub vm_args: Option<String>,
    pub encoding: Option<String>,
    pub class_paths: Option<Vec<String>>,
    pub module_paths: Option<Vec<String>>,
    pub cwd: Option<String>,
    pub env: Option<Vec<(String, String)>>,
    pub stop_on_entry: Option<bool>,
    pub no_debug: Option<bool>,
    pub console: Option<String>,
    pub shorten_command_line: Option<String>,
    pub launcher_script: Option<String>,
    pub java_exec: Option<String>,
}

/// View of an optional string field.
pub open spec fn view_opt_str(o: Option<String>) -> Option<Seq<char>> {
    match o {
        Some(s) => Some(s@),
        None => None,
    }
}

/// Members of an environment object.
pub open spec fn env_kvs(ps: Seq<(String, String)>) -> Seq<(Seq<char>, Jv)> {
    ps.map_values(|p: (String, String)| (p.0@, Jv::Str(p.1@)))
}

/// The member an optional string field contributes.
pub open spec fn opt_str_kv(key: Seq<char>, o: Option<String>) -> Seq<(Seq<char>, Jv)> {
    match o {
        Some(s) => seq![(key, Jv::Str(s@))],
        None => Seq::empty(),
    }
}

/// The member an optional boolean field contributes.
pub open spec fn opt_bool_kv(key: Seq<char>, o: Option<bool>) -> Seq<(Seq<char>, Jv)> {
    match o {
        Some(b) => seq![(key, Jv::Bool(b))],
        None => Seq::empty(),
    }
}

/// The member an optional string-list field contributes.
pub open spec fn opt_list_kv(key: Seq<char>, o: Option<Vec<String>>) -> Seq<(Seq<char>, Jv)> {
    match o {
        Some(v) => seq![(key, Jv::Arr(jv_strings(v.deep_view())))],
        None => Seq::empty(),
    }
}

/// The member an optional environment field contributes.
pub open spec fn opt_env_kv(key: Seq<char>, o: Option<Vec<(String, String)>>) -> Seq<
    (Seq<char>, Jv),
> {
    match o {
        Some(v) => seq![(key, Jv::Obj(env_kvs(v@)))],
        None => Seq::empty(),
    }
}

/// The members of a serialized launch configuration, in declaration
/// order, absent fields skipped.
pub open spec fn spec_config_kvs(c: DebugLaunchConfig) -> Seq<(Seq<char>, Jv)> {
    seq![("request"@, Jv::Str(c.request@))] + opt_str_kv("projectName"@, c.project_name)
        + opt_str_kv("mainClass"@, c.main_class) + opt_str_kv("args"@, c.args) + opt_str_kv(
        "vmArgs"@,
        c.vm_args,
    ) + opt_str_kv("encoding"@, c.encoding) + opt_list_kv("classPaths"@, c.class_paths)
        + opt_list_kv("modulePaths"@, c.module_paths) + opt_str_kv("cwd"@, c.cwd) + opt_env_kv(
        "env"@,
        c.env,
    ) + opt_bool_kv("stopOnEntry"@, c.stop_on_entry) + opt_bool_kv("noDebug"@, c.no_debug)
        + opt_str_kv("console"@, c.console) + opt_str_kv(
        "shortenCommandLine"@,
        c.shorten_command_line,
    ) + opt_str_kv("launcherScript"@, c.launcher_script) + opt_str_kv("javaExec"@, c.java_exec)
}

/// Turns an environment list into a JSON object of string members.
fn env_to_json(ps: &Vec<(String, String)>) -> (r: Json)
    ensures
        r@ == Jv::Obj(env_kvs(ps@)),
{
    let n = ps.len();
    let mut kvs: Vec<(String, Json)> = Vec::new();
    let mut i: usize = 0;
    while i < n
        invariant
            n == ps@.len(),
            0 <= i <= n,
            kvs@.len() == i,
            forall|k: int|
                0 <= k < i ==> (#[trigger] kvs@[k]).0@ == ps@[k].0@ && jv_of(kvs@[k].1)
                    == Jv::Str(ps@[k].1@),
        decreases n - i,
    {
        kvs.push((ps[i].0.clone(), Json::Str(ps[i].1.clone())));
        i = i + 1;
    }
    proof {
        crate::json::lemma_jv_of_kvs_index(kvs@);
        assert forall|k: int| 0 <= k < n implies jv_of_kvs(kvs@)[k] == env_kvs(ps@)[k] by {
            assert(jv_of_kvs(kvs@)[k] == (kvs@[k].0@, jv_of(kvs@[k].1)));
        }
        assert(jv_of_kvs(kvs@) =~= env_kvs(ps@));
    }
    Json::Obj(kvs)
}

/// Appends an optional string member.
fn push_opt_str(kvs: &mut Vec<(String, Json)>, key: &str, o: &Option<String>)
    ensures
        jv_of_kvs(final(kvs)@) == jv_of_kvs(old(kvs)@) + opt_str_kv(key@, *o),
{
    if let Some(s) = o {
        obj_push(kvs, key, Json::Str(s.clone()));
        proof {
            assert(jv_of_kvs(kvs@) =~= jv_of_kvs(old(kvs)@) + opt_str_kv(key@, *o));
        }
    } else {
        proof {
            assert(jv_of_kvs(kvs@) =~= jv_of_kvs(old(kvs)@) + opt_str_kv(key@, *o));
        }
    }
}

/// Appends an optional boolean member.
fn push_opt_bool(kvs: &mut Vec<(String, Json)>, key: &str, o: &Option<bool>)
    ensures
        jv_of_kvs(final(kvs)@) == jv_of_kvs(old(kvs)@) + opt_bool_kv(key@, *o),
{
    if let Some(b) = o {
        obj_push(kvs, key, Json::Bool(*b));
        proof {
            assert(jv_of_kvs(kvs@) =~= jv_of_kvs(old(kvs)@) + opt_bool_kv(key@, *o));
        }
    } else {
        proof {
            assert(jv_of_kvs(kvs@) =~= jv_of_kvs(old(kvs)@) + opt_bool_kv(key@, *o));
        }
    }
}

/// Appends an optional string-list member.
fn push_opt_list(kvs: &mut Vec<(String, Json)>, key: &str, o: &Option<Vec<String>>)
    ensures
        jv_of_kvs(final(kvs)@) == jv_of_kvs(old(kvs)@) + opt_list_kv(key@, *o),
{
    if let Some(v) = o {
        obj_push(kvs, key, crate::lsp::strings_to_json(v));
        proof {
            assert(jv_of_kvs(kvs@) =~= jv_of_kvs(old(kvs)@) + opt_list_kv(key@, *o));
        }
    } else {
        proof {
            assert(jv_of_kvs(kvs@) =~= jv_of_kvs(old(kvs)@) + opt_list_kv(key@, *o));
        }
    }
}

/// Appends an optional environment member.
fn push_opt_env(kvs: &mut Vec<(String, Json)>, key: &str, o: &Option<Vec<(String, String)>>)
    ensures
        jv_of_kvs(final(kvs)@) == jv_of_kvs(old(kvs)@) + opt_env_kv(key@, *o),
{
    if let Some(ps) = o {
        obj_push(kvs, key, env_to_json(ps));
        proof {
            assert(jv_of_kvs(kvs@) =~= jv_of_kvs(old(kvs)@) + opt_env_kv(key@, *o));
        }
    } else {
        proof {
            assert(jv_of_kvs(kvs@) =~= jv_of_kvs(old(kvs)@) + opt_env_kv(key@, *o));
        }
    }
}

/// Serializes a launch configuration into the library's JSON model.
pub fn launch_config_to_json(c: &DebugLaunchConfig) -> (r: Json)
    ensures
        r@ == Jv::Obj(spec_config_kvs(*c)),
{
    let mut kvs: Vec<(String, Json)> = Vec::new();
    proof {
        assert(jv_of_kvs(kvs@) =~= Seq::<(Seq<char>, Jv)>::empty());
    }
    obj_push(&mut kvs, "request", Json::Str(c.request.clone()));
    proof {
        assert(jv_of_kvs(kvs@) =~= seq![("request"@, Jv::Str(c.request@))]);
    }
    push_opt_str(&mut kvs, "projectName", &c.project_name);
    push_opt_str(&mut kvs, "mainClass", &c.main_class);
    push_opt_str(&mut kvs, "args", &c.args);
    push_opt_str(&mut kvs, "vmArgs", &c.vm_args);
    push_opt_str(&mut kvs, "encoding", &c.encoding);
    push_opt_list(&mut kvs, "classPaths", &c.class_paths);
    push_opt_list(&mut kvs, "modulePaths", &c.module_paths);
    push_opt_str(&mut kvs, "cwd", &c.cwd);
    push_opt_env(&mut kvs, "env", &c.env);
    push_opt_bool(&mut kvs, "stopOnEntry", &c.stop_on_entry);
    push_opt_bool(&mut kvs, "noDebug", &c.no_debug);
    push_opt_str(&mut kvs, "console", &c.console);
    push_opt_str(&mut kvs, "shortenCommandLine", &c.shorten_command_line);
    push_opt_str(&mut kvs, "launcherScript", &c.launcher_script);
    push_opt_str(&mut kvs, "javaExec", &c.java_exec);
    proof {
        assert(jv_of_kvs(kvs@) =~= spec_config_kvs(*c));
    }
    Json::Obj(kvs)
}

/// An optional string field reads as `o`: an absent key or a `null` is no
/// value, a string is the value.
pub open spec fn opt_str_ok(v: Jv, key: Seq<char>, o: Option<String>) -> bool {
    match spec_obj_get(v, key) {
        None => o is None,
        Some(Jv::Null) => o is None,
        Some(Jv::Str(s)) => (o matches Some(t) && t@ == s),
        Some(_) => false,
    }
}

/// An optional string field is malformed: present with a non-string,
/// non-null value.
pub open spec fn opt_str_bad(v: Jv, key: Seq<char>) -> bool {
    match spec_obj_get(v, key) {
        None => false,
        Some(Jv::Null) => false,
        Some(Jv::Str(_)) => false,
        Some(_) => true,
    }
}

/// An optional boolean field reads as `o`.
pub open spec fn opt_bool_ok(v: Jv, key: Seq<char>, o: Option<bool>) -> bool {
    match spec_obj_get(v, key) {
        None => o is None,
        Some(Jv::Null) => o is None,
        Some(Jv::Bool(b)) => o == Some(b),
        Some(_) => false,
    }
}

/// An optional boolean field is malformed.
pub open spec fn opt_bool_bad(v: Jv, key: Seq<char>) -> bool {
    match spec_obj_get(v, key) {
        None => false,
        Some(Jv::Null) => false,
        Some(Jv::Bool(_)) => false,
        Some(_) => true,
    }
}

/// An optional string-list field reads as `o`.
pub open spec fn opt_strs_ok(v: Jv, key: Seq<char>, o: Option<Vec<String>>) -> bool {
    match spec_obj_get(v, key) {
        None => o is None,
        Some(Jv::Null) => o is None,
        Some(Jv::Arr(items)) => (o matches Some(vv) && items == jv_strings(vv.deep_view())),
        Some(_) => false,
    }
}

/// An optional string-list field is malformed: present with something
/// other than `null` or an array of strings.
pub open spec fn opt_strs_bad(v: Jv, key: Seq<char>) -> bool {
    match spec_obj_get(v, key) {
        None => false,
        Some(Jv::Null) => false,
        Some(Jv::Arr(items)) => !(forall|k: int|
            0 <= k < items.len() ==> #[trigger] items[k] is Str),
        Some(_) => true,
    }
}

/// An optional environment field reads as `o`.
pub open spec fn opt_env_ok(v: Jv, key: Seq<char>, o: Option<Vec<(String, String)>>) -> bool {
    match spec_obj_get(v, key) {
        None => o is None,
        Some(Jv::Null) => o is None,
        Some(Jv::Obj(kvs)) => (o matches Some(ps) && kvs == env_kvs(ps@)),
        Some(_) => false,
    }
}

/// An optional environment field is malformed: present with something
/// other than `null` or an object of string members.
pub open spec fn opt_env_bad(v: Jv, key: Seq<char>) -> bool {
    match spec_obj_get(v, key) {
        None => false,
        Some(Jv::Null) => false,
        Some(Jv::Obj(kvs)) => !(forall|k: int|
            0 <= k < kvs.len() ==> (#[trigger] kvs[k]).1 is Str),
        Some(_) => true,
    }
}

fn get_opt_str(j: &Json, key: &str) -> (r: Result<Option<String>, BridgeError>)
    ensures
        match r {
            Ok(o) => opt_str_ok(j@, key@, o),
            Err(e) => e == BridgeError::InvalidLaunchConfig && opt_str_bad(j@, key@),
        },
{
    match obj_get(j, key) {
        None => Ok(None),
        Some(Json::Null) => Ok(None),
        Some(Json::Str(s)) => Ok(Some(s.clone())),
        Some(_) => Err(BridgeError::InvalidLaunchConfig),
    }
}

fn get_opt_bool(j: &Json, key: &str) -> (r: Result<Option<bool>, BridgeError>)
    ensures
        match r {
            Ok(o) => opt_bool_ok(j@, key@, o),
            Err(e) => e == BridgeError::InvalidLaunchConfig && opt_bool_bad(j@, key@),
        },
{
    match obj_get(j, key) {
        None => Ok(None),
        Some(Json::Null) => Ok(None),
        Some(Json::Bool(b)) => Ok(Some(*b)),
        Some(_) => Err(BridgeError::InvalidLaunchConfig),
    }
}

fn get_opt_strs(j: &Json, key: &str) -> (r: Result<Option<Vec<String>>, BridgeError>)
    ensures
        match r {
            Ok(o) => opt_strs_ok(j@, key@, o),
            Err(e) => e == BridgeError::InvalidLaunchConfig && opt_strs_bad(j@, key@),
        },
{
    match obj_get(j, key) {
        None => Ok(None),
        Some(Json::Null) => Ok(None),
        Some(arr) => {
            if matches!(arr, Json::Arr(_)) {
                match crate::lsp::string_list_from(arr) {
                    Ok(v) => {
                        proof {
                            if let Jv::Arr(items) = arr@ {
                                let dv = v.deep_view();
                                assert forall|k: int| 0 <= k < items.len() implies items[k]
                                    == jv_strings(dv)[k] by {
                                    assert(items[k] == Jv::Str(dv[k]));
                                }
                                assert(items =~= jv_strings(dv));
                            }
                        }
                        Ok(Some(v))
                    },
                    Err(_) => Err(BridgeError::InvalidLaunchConfig),
                }
            } else {
                Err(BridgeError::InvalidLaunchConfig)
            }
        },
    }
}

#[verifier::loop_isolation(false)]
fn get_opt_env(j: &Json, key: &str) -> (r: Result<Option<Vec<(String, String)>>, BridgeError>)
    ensures
        match r {
            Ok(o) => opt_env_ok(j@, key@, o),
            Err(e) => e == BridgeError::InvalidLaunchConfig && opt_env_bad(j@, key@),
        },
{
    match obj_get(j, key) {
        None => Ok(None),
        Some(Json::Null) => Ok(None),
        Some(Json::Obj(kvs)) => {
            proof {
                crate::json::lemma_jv_of_kvs_index(kvs@);
            }
            let n = kvs.len();
            let mut out: Vec<(String, String)> = Vec::new();
            let mut i: usize = 0;
            while i < n
                invariant
                    n == kvs@.len(),
                    0 <= i <= n,
                    out@.len() == i,
                    jv_of_kvs(kvs@).len() == n,
                    forall|k: int|
                        0 <= k < n ==> jv_of_kvs(kvs@)[k] == ((#[trigger] kvs@[k]).0@, jv_of(
                            kvs@[k].1,
                        )),
                    forall|k: int|
                        0 <= k < i ==> (#[trigger] out@[k]).0@ == kvs@[k].0@ && jv_of(kvs@[k].1)
                            == Jv::Str(out@[k].1@),
                decreases n - i,
            {
                match &kvs[i].1 {
                    Json::Str(s) => {
                        out.push((kvs[i].0.clone(), s.clone()));
                    },
                    _ => {
                        proof {
                            assert(jv_of_kvs(kvs@)[i as int].1 == jv_of(kvs@[i as int].1));
                            assert(!(jv_of_kvs(kvs@)[i as int].1 is Str));
                        }
                        return Err(BridgeError::InvalidLaunchConfig);
                    },
                }
                i = i + 1;
            }
            proof {
                assert forall|k: int| 0 <= k < n implies env_kvs(out@)[k] == jv_of_kvs(kvs@)[k] by {
                    assert(env_kvs(out@)[k] == (out@[k].0@, Jv::Str(out@[k].1@)));
                }
                assert(env_kvs(out@) =~= jv_of_kvs(kvs@));
            }
            Ok(Some(out))
        },
        Some(_) => Err(BridgeError::InvalidLaunchConfig),
    }
}

/// A document has the shape of a launch configuration: a string `request`
/// and every optional field either absent or of its expected type.
pub open spec fn spec_launch_shape(v: Jv) -> bool {
    &&& spec_obj_get(v, "request"@) matches Some(Jv::Str(_))
    &&& !opt_str_bad(v, "projectName"@)
    &&& !opt_str_bad(v, "mainClass"@)
    &&& !opt_str_bad(v, "args"@)
    &&& !opt_str_bad(v, "vmArgs"@)
    &&& !opt_str_bad(v, "encoding"@)
    &&& !opt_strs_bad(v, "classPaths"@)
    &&& !opt_strs_bad(v, "modulePaths"@)
    &&& !opt_str_bad(v, "cwd"@)
    &&& !opt_env_bad(v, "env"@)
    &&& !opt_bool_bad(v, "stopOnEntry"@)
    &&& !opt_bool_bad(v, "noDebug"@)
    &&& !opt_str_bad(v, "console"@)
    &&& !opt_str_bad(v, "shortenCommandLine"@)
    &&& !opt_str_bad(v, "launcherScript"@)
    &&& !opt_str_bad(v, "javaExec"@)
}

/// The parsed configuration `c` reads the document `v` field by field.
pub open spec fn spec_config_matches(v: Jv, c: DebugLaunchConfig) -> bool {
    &&& spec_obj_get(v, "request"@) == Some(Jv::Str(c.request@))
    &&& opt_str_ok(v, "projectName"@, c.project_name)
    &&& opt_str_ok(v, "mainClass"@, c.main_class)
    &&& opt_str_ok(v, "args"@, c.args)
    &&& opt_str_ok(v, "vmArgs"@, c.vm_args)
    &&& opt_str_ok(v, "encoding"@, c.encoding)
    &&& opt_strs_ok(v, "classPaths"@, c.class_paths)
    &&& opt_strs_ok(v, "modulePaths"@, c.module_paths)
    &&& opt_str_ok(v, "cwd"@, c.cwd)
    &&& opt_env_ok(v, "env"@, c.env)
    &&& opt_bool_ok(v, "stopOnEntry"@, c.stop_on_entry)
    &&& opt_bool_ok(v, "noDebug"@, c.no_debug)
    &&& opt_str_ok(v, "console"@, c.console)
    &&& opt_str_ok(v, "shortenCommandLine"@, c.shorten_command_line)
    &&& opt_str_ok(v, "launcherScript"@, c.launcher_script)
    &&& opt_str_ok(v, "javaExec"@, c.java_exec)
}

/// Parses a host-supplied document into a launch configuration, rejecting
/// a document whose fields have unexpected types.
pub fn launch_config_from_json(j: &Json) -> (r: Result<DebugLaunchConfig, BridgeError>)
    ensures
        match r {
            Ok(c) => spec_launch_shape(j@) && spec_config_matches(j@, c),
            Err(e) => e == BridgeError::InvalidLaunchConfig && !spec_launch_shape(j@),
        },
{
    let request: String = match obj_get(j, "request") {
        Some(Json::Str(s)) => s.clone(),
        _ => {
            return Err(BridgeError::InvalidLaunchConfig);
        },
    };
    let project_name = get_opt_str(j, "projectName")?;
    let main_class = get_opt_str(j, "mainClass")?;
    let args = get_opt_str(j, "args")?;
    let vm_args = get_opt_str(j, "vmArgs")?;
    let encoding = get_opt_str(j, "encoding")?;
    let class_paths = get_opt_strs(j, "classPaths")?;
    let module_paths = get_opt_strs(j, "modulePaths")?;
    let cwd = get_opt_str(j, "cwd")?;
    let env = get_opt_env(j, "env")?;
    let stop_on_entry = get_opt_bool(j, "stopOnEntry")?;
    let no_debug = get_opt_bool(j, "noDebug")?;
    let console = get_opt_str(j, "console")?;
    let shorten_command_line = get_opt_str(j, "shortenCommandLine")?;
    let launcher_script = get_opt_str(j, "launcherScript")?;
    let java_exec = get_opt_str(j, "javaExec")?;
    Ok(
        DebugLaunchConfig {
            request,
            project_name,
            main_class,
            args,
            vm_args,
            encoding,
            class_paths,
            module_paths,
            cwd,
            env,
            stop_on_entry,
            no_debug,
            console,
            shorten_command_line,
            launcher_script,
            java_exec,
        },
    )
}

/// An attach (or otherwise non-launch) configuration passes through the
/// injector unchanged.
pub fn is_passthrough_request(j: &Json) -> (r: bool)
    ensures
        r == (spec_obj_get(j@, "request"@) matches Some(Jv::Str(s)) && s != "launch"@),
{
    match obj_get(j, "request") {
        Some(Json::Str(s)) => !str_eq(s.as_str(), "launch"),
        _ => false,
    }
}

/// The hints handed to the entry-point resolution call: the configured
/// main class and project name, whichever are present, in that order.
pub open spec fn spec_hints(mc: Option<String>, pn: Option<String>) -> Seq<Seq<char>> {
    (match mc {
        Some(m) => seq![m@],
        None => Seq::empty(),
    }) + (match pn {
        Some(p) => seq![p@],
        None => Seq::empty(),
    })
}

/// Collects the entry-point hints of a configuration.
pub fn main_class_hints(c: &DebugLaunchConfig) -> (r: Vec<String>)
    ensures
        r.deep_view() == spec_hints(c.main_class, c.project_name),
{
    let mut out: Vec<String> = Vec::new();
    if let Some(m) = &c.main_class {
        out.push(m.clone());
    }
    if let Some(p) = &c.project_name {
        out.push(p.clone());
    }
    proof {
        assert(out.deep_view() =~= spec_hints(c.main_class, c.project_name));
    }
    out
}

/// A candidate agrees with the configured hints: each present hint must
/// match the candidate's field exactly.
pub open spec fn entry_matches_hints(
    e: MainClassEntry,
    mc: Option<String>,
    pn: Option<String>,
) -> bool {
    &&& (mc matches Some(m) ==> e.main_class@ == m@)
    &&& (pn matches Some(p) ==> e.project_name@ == p@)
}

/// Resolves the entry point against collaborator candidates.  More than
/// one candidate matching the hints is ambiguous and fails; exactly one
/// overrides both hint fields; none leaves the hints as they were.
pub fn resolve_entry_point(
    mc: &Option<String>,
    pn: &Option<String>,
    entries: &Vec<MainClassEntry>,
) -> (r: Result<(Option<String>, Option<String>), BridgeError>)
    ensures
        match r {
            Err(e) => e == BridgeError::AmbiguousEntryPoint && exists|i: int, k: int|
                0 <= i < k < entries@.len() && entry_matches_hints(#[trigger] entries@[i], *mc, *pn)
                    && entry_matches_hints(#[trigger] entries@[k], *mc, *pn),
            Ok(p) => {
                if exists|i: int|
                    0 <= i < entries@.len() && entry_matches_hints(#[trigger] entries@[i], *mc, *pn) {
                    exists|i: int|
                        0 <= i < entries@.len() && entry_matches_hints(
                            #[trigger] entries@[i],
                            *mc,
                            *pn,
                        ) && (forall|k: int|
                            0 <= k < entries@.len() && k != i ==> !entry_matches_hints(
                                #[trigger] entries@[k],
                                *mc,
                                *pn,
                            )) && view_opt_str(p.0) == Some(entries@[i].main_class@)
                            && view_opt_str(p.1) == Some(entries@[i].project_name@)
                } else {
                    view_opt_str(p.0) == view_opt_str(*mc) && view_opt_str(p.1) == view_opt_str(
                        *pn,
                    )
                }
            },
        },
{
    let n = entries.len();
    let mut found: Option<usize> = None;
    let mut i: usize = 0;
    while i < n
        invariant
            n == entries@.len(),
            0 <= i <= n,
            match found {
                Some(f) => f < i && entry_matches_hints(entries@[f as int], *mc, *pn) && forall|
                    k: int,
                |
                    0 <= k < i && k != f ==> !entry_matches_hints(#[trigger] entries@[k], *mc, *pn),
                None => forall|k: int|
                    0 <= k < i ==> !entry_matches_hints(#[trigger] entries@[k], *mc, *pn),
            },
        decreases n - i,
    {
        let hit_mc: bool = match mc {
            Some(m) => str_eq(entries[i].main_class.as_str(), m.as_str()),
            None => true,
        };
        let hit_pn: bool = match pn {
            Some(p) => str_eq(entries[i].project_name.as_str(), p.as_str()),
            None => true,
        };
        if hit_mc && hit_pn {
            match found {
                Some(f) => {
                    proof {
                        assert(entry_matches_hints(entries@[f as int], *mc, *pn));
                        assert(entry_matches_hints(entries@[i as int], *mc, *pn));
                    }
                    return Err(BridgeError::AmbiguousEntryPoint);
                },
                None => {
                    found = Some(i);
                },
            }
        }
        i = i + 1;
    }
    match found {
        Some(f) => Ok(
            (Some(entries[f].main_class.clone()), Some(entries[f].project_name.clone())),
        ),
        None => Ok((clone_opt_string(mc), clone_opt_string(pn))),
    }
}

/// Copies an optional string.
fn clone_opt_string(o: &Option<String>) -> (r: Option<String>)
    ensures
        view_opt_str(r) == view_opt_str(*o),
{
    match o {
        Some(s) => Some(s.clone()),
        None => None,
    }
}

/// A reserved classpath scope marker.
pub open spec fn is_scope_marker(s: Seq<char>) -> bool {
    s == "$Test"@ || s == "$Auto"@ || s == "$Runtime"@
}

/// Is `s` a reserved classpath scope marker?
pub fn is_scope_marker_str(s: &str) -> (r: bool)
    ensures
        r == is_scope_marker(s@),
{
    str_eq(s, "$Test") || str_eq(s, "$Auto") || str_eq(s, "$Runtime")
}

/// The classpaths the injector starts from: the configured ones, or the
/// single auto-scope marker when none are configured.
pub open spec fn spec_effective_class_paths(cp: Option<Vec<String>>) -> Seq<Seq<char>> {
    match cp {
        Some(v) => v.deep_view(),
        None => seq!["$Auto"@],
    }
}

/// Returns the configured classpaths, defaulting to the auto-scope marker.
pub fn effective_class_paths(cp: &Option<Vec<String>>) -> (r: Vec<String>)
    ensures
        r.deep_view() == spec_effective_class_paths(*cp),
{
    match cp {
        Some(v) => {
            let mut out: Vec<String> = Vec::new();
            let n = v.len();
            let mut i: usize = 0;
            while i < n
                invariant
                    n == v@.len(),
                    0 <= i <= n,
                    out@.len() == i,
                    forall|k: int| 0 <= k < i ==> (#[trigger] out@[k])@ == v@[k]@,
                decreases n - i,
            {
                out.push(v[i].clone());
                i = i + 1;
            }
            proof {
                assert(out.deep_view() =~= v.deep_view());
            }
            out
        },
        None => {
            let out: Vec<String> = vec!["$Auto".to_owned()];
            proof {
                assert(out.deep_view() =~= seq!["$Auto"@]);
            }
            out
        },
    }
}

/// Does any classpath entry carry a scope marker?
pub fn has_scope_marker(cps: &Vec<String>) -> (r: bool)
    ensures
        r == exists|k: int|
            0 <= k < cps.deep_view().len() && is_scope_marker(#[trigger] cps.deep_view()[k]),
{
    let n = cps.len();
    let mut i: usize = 0;
    while i < n
        invariant
            n == cps@.len(),
            0 <= i <= n,
            forall|k: int| 0 <= k < i ==> !is_scope_marker(#[trigger] cps.deep_view()[k]),
        decreases n - i,
    {
        proof {
            assert(cps.deep_view()[i as int] == cps@[i as int]@);
        }
        if is_scope_marker_str(cps[i].as_str()) {
            return true;
        }
        i = i + 1;
    }
    false
}

/// The scope handed to the classpath-resolution call: the test scope wins
/// over the auto scope (no explicit scope), which wins over the runtime
/// scope; anything else also resolves without an explicit scope.
pub open spec fn spec_scope_argument(cps: Seq<Seq<char>>) -> Option<Seq<char>> {
    if exists|k: int| 0 <= k < cps.len() && #[trigger] cps[k] == "$Test"@ {
        Some("test"@)
    } else if exists|k: int| 0 <= k < cps.len() && #[trigger] cps[k] == "$Auto"@ {
        None
    } else if exists|k: int| 0 <= k < cps.len() && #[trigger] cps[k] == "$Runtime"@ {
        Some("runtime"@)
    } else {
        None
    }
}

/// Picks the scope argument for the classpath-resolution call.
pub fn scope_argument(cps: &Vec<String>) -> (r: Option<String>)
    ensures
        view_opt_str(r) == spec_scope_argument(cps.deep_view()),
{
    if contains_str(cps, "$Test") {
        Some("test".to_owned())
    } else if contains_str(cps, "$Auto") {
        None
    } else if contains_str(cps, "$Runtime") {
        Some("runtime".to_owned())
    } else {
        None
    }
}

/// Does the list hold this exact string?
pub fn contains_str(v: &Vec<String>, s: &str) -> (r: bool)
    ensures
        r == exists|k: int| 0 <= k < v.deep_view().len() && #[trigger] v.deep_view()[k] == s@,
{
    let n = v.len();
    let mut i: usize = 0;
    while i < n
        invariant
            n == v@.len(),
            0 <= i <= n,
            forall|k: int| 0 <= k < i ==> #[trigger] v.deep_view()[k] != s@,
        decreases n - i,
    {
        proof {
            assert(v.deep_view()[i as int] == v@[i as int]@);
        }
        if str_eq(v[i].as_str(), s) {
            return true;
        }
        i = i + 1;
    }
    false
}

/// `s` with every later duplicate removed: each entry keeps its first
/// occurrence's position.
pub open spec fn dedup_first(s: Seq<Seq<char>>) -> Seq<Seq<char>>
    decreases s.len(),
{
    if s.len() == 0 {
        s
    } else {
        let prefix = dedup_first(s.drop_last());
        if prefix.contains(s.last()) {
            prefix
        } else {
            prefix.push(s.last())
        }
    }
}

/// The classpath entries that survive scope stripping.
pub open spec fn strip_scopes(s: Seq<Seq<char>>) -> Seq<Seq<char>> {
    s.filter(|n: Seq<char>| !is_scope_marker(n))
}

/// The final classpath list: the starting entries followed by every
/// resolved entry, scope markers stripped, duplicates removed keeping
/// first occurrences.
pub open spec fn spec_merged_class_paths(
    cps: Seq<Seq<char>>,
    resolved: Seq<Seq<Seq<char>>>,
) -> Seq<Seq<char>> {
    dedup_first(strip_scopes(cps + resolved.flatten()))
}

/// Merges resolved classpath entries into the configured ones, stripping
/// every scope marker and dropping duplicates while keeping first
/// occurrences.
pub fn merge_class_paths(cps: &Vec<String>, resolved: &Vec<Vec<String>>) -> (r: Vec<String>)
    ensures
        r.deep_view() == spec_merged_class_paths(cps.deep_view(), resolved.deep_view()),
{
    let mut combined: Vec<String> = Vec::new();
    let n = cps.len();
    let mut i: usize = 0;
    while i < n
        invariant
            n == cps@.len(),
            0 <= i <= n,
            combined@.len() == i,
            forall|k: int| 0 <= k < i ==> (#[trigger] combined@[k])@ == cps@[k]@,
        decreases n - i,
    {
        combined.push(cps[i].clone());
        i = i + 1;
    }
    proof {
        assert(combined.deep_view() =~= cps.deep_view());
    }
    let ghost flat_so_far: Seq<Seq<Seq<char>>> = Seq::empty();
    proof {
        assert(flat_so_far.flatten() =~= Seq::<Seq<char>>::empty());
        assert(combined.deep_view() =~= cps.deep_view() + flat_so_far.flatten());
    }
    let m = resolved.len();
    let mut g: usize = 0;
    while g < m
        invariant
            m == resolved@.len(),
            0 <= g <= m,
            combined.deep_view() == cps.deep_view() + resolved.deep_view().subrange(
                0,
                g as int,
            ).flatten(),
        decreases m - g,
    {
        let inner = &resolved[g];
        let ni = inner.len();
        let mut t: usize = 0;
        while t < ni
            invariant
                ni == inner@.len(),
                0 <= t <= ni,
                combined.deep_view() == cps.deep_view() + resolved.deep_view().subrange(
                    0,
                    g as int,
                ).flatten() + inner.deep_view().subrange(0, t as int),
                m == resolved@.len(),
                g < m,
                inner == &resolved[g as int],
            decreases ni - t,
        {
            let ghost prev = combined.deep_view();
            combined.push(inner[t].clone());
            proof {
                assert(combined.deep_view() =~= prev.push(inner@[t as int]@)) by {
                    assert(forall|k: int|
                        0 <= k < combined@.len() ==> (#[trigger] combined.deep_view()[k])
                            == combined@[k]@);
                }
                assert(inner.deep_view().subrange(0, t + 1) =~= inner.deep_view().subrange(
                    0,
                    t as int,
                ).push(inner@[t as int]@));
                assert(prev.push(inner@[t as int]@) =~= cps.deep_view()
                    + resolved.deep_view().subrange(0, g as int).flatten()
                    + inner.deep_view().subrange(0, t + 1));
            }
            t = t + 1;
        }
        proof {
            let rdv = resolved.deep_view();
            assert(inner.deep_view().subrange(0, ni as int) =~= inner.deep_view());
            assert(rdv.subrange(0, g + 1) =~= rdv.subrange(0, g as int).push(rdv[g as int]));
            rdv.subrange(0, g as int).lemma_flatten_push(rdv[g as int]);
            assert(rdv[g as int] == inner.deep_view());
            assert(cps.deep_view() + rdv.subrange(0, g as int).flatten() + inner.deep_view()
                =~= cps.deep_view() + rdv.subrange(0, g + 1).flatten());
        }
        g = g + 1;
    }
    proof {
        assert(resolved.deep_view().subrange(0, m as int) =~= resolved.deep_view());
    }
    let stripped = keep_non_scopes(&combined);
    dedup_strings(&stripped)
}

/// Keeps the entries that are not scope markers, in order.
fn keep_non_scopes(v: &Vec<String>) -> (r: Vec<String>)
    ensures
        r.deep_view() == strip_scopes(v.deep_view()),
{
    let n = v.len();
    let mut out: Vec<String> = Vec::new();
    let mut i: usize = 0;
    proof {
        reveal(Seq::filter);
        assert(v.deep_view().subrange(0, 0) =~= Seq::<Seq<char>>::empty());
        assert(out.deep_view() =~= Seq::<Seq<char>>::empty());
    }
    while i < n
        invariant
            n == v@.len(),
            0 <= i <= n,
            out.deep_view() == strip_scopes(v.deep_view().subrange(0, i as int)),
        decreases n - i,
    {
        let ghost prev = v.deep_view().subrange(0, i as int);
        let ghost cur = v.deep_view().subrange(0, i + 1);
        proof {
            assert(cur =~= prev.push(v@[i as int]@));
            reveal(Seq::filter);
            assert(cur.drop_last() =~= prev);
        }
        let keep = !is_scope_marker_str(v[i].as_str());
        if keep {
            let ghost before = out.deep_view();
            out.push(v[i].clone());
            proof {
                assert(out.deep_view() =~= before.push(v@[i as int]@)) by {
                    assert(forall|k: int|
                        0 <= k < out@.len() ==> (#[trigger] out.deep_view()[k]) == out@[k]@);
                }
                assert(out.deep_view() == strip_scopes(cur));
            }
        } else {
            proof {
                assert(out.deep_view() == strip_scopes(cur));
            }
        }
        i = i + 1;
    }
    proof {
        assert(v.deep_view().subrange(0, n as int) =~= v.deep_view());
    }
    out
}

/// Removes later duplicates, keeping each entry's first occurrence.
fn dedup_strings(v: &Vec<String>) -> (r: Vec<String>)
    ensures
        r.deep_view() == dedup_first(v.deep_view()),
{
    let n = v.len();
    let mut out: Vec<String> = Vec::new();
    let mut i: usize = 0;
    proof {
        assert(v.deep_view().subrange(0, 0) =~= Seq::<Seq<char>>::empty());
        assert(out.deep_view() =~= Seq::<Seq<char>>::empty());
    }
    while i < n
        invariant
            n == v@.len(),
            0 <= i <= n,
            out.deep_view() == dedup_first(v.deep_view().subrange(0, i as int)),
        decreases n - i,
    {
        let ghost prev = v.deep_view().subrange(0, i as int);
        let ghost cur = v.deep_view().subrange(0, i + 1);
        proof {
            assert(cur =~= prev.push(v@[i as int]@));
            assert(cur.drop_last() =~= prev);
            assert(cur.last() == v@[i as int]@);
        }
        let dup = contains_str(&out, v[i].as_str());
        proof {
            assert(dup == dedup_first(prev).contains(v@[i as int]@)) by {
                if dup {
                    let k = choose|k: int|
                        0 <= k < out.deep_view().len() && out.deep_view()[k] == v@[i as int]@;
                    assert(dedup_first(prev)[k] == v@[i as int]@);
                } else {
                    if dedup_first(prev).contains(v@[i as int]@) {
                        let k = choose|k: int|
                            0 <= k < dedup_first(prev).len() && dedup_first(prev)[k]
                                == v@[i as int]@;
                        assert(out.deep_view()[k] == v@[i as int]@);
                    }
                }
            }
        }
        if !dup {
            let ghost before = out.deep_view();
            out.push(v[i].clone());
            proof {
                assert(out.deep_view() =~= before.push(v@[i as int]@)) by {
                    assert(forall|k: int|
                        0 <= k < out@.len() ==> (#[trigger] out.deep_view()[k]) == out@[k]@);
                }
            }
        }
        i = i + 1;
    }
    proof {
        assert(v.deep_view().subrange(0, n as int) =~= v.deep_view());
    }
    out
}

/// Every entry of a deduplicated list came from the input.
proof fn lemma_dedup_elements(s: Seq<Seq<char>>)
    ensures
        forall|i: int|
            0 <= i < dedup_first(s).len() ==> s.contains(#[trigger] dedup_first(s)[i]),
    decreases s.len(),
{
    if s.len() > 0 {
        lemma_dedup_elements(s.drop_last());
        let prefix = dedup_first(s.drop_last());
        assert forall|i: int| 0 <= i < dedup_first(s).len() implies s.contains(
            #[trigger] dedup_first(s)[i],
        ) by {
            if i < prefix.len() {
                assert(prefix[i] == dedup_first(s)[i]);
                assert(s.drop_last().contains(prefix[i]));
                let k = choose|k: int|
                    0 <= k < s.drop_last().len() && s.drop_last()[k] == prefix[i];
                assert(s[k] == prefix[i]);
            } else {
                assert(dedup_first(s)[i] == s.last());
                assert(s[s.len() - 1] == s.last());
            }
        }
    }
}

/// A deduplicated list has no repeated entries.
proof fn lemma_dedup_distinct(s: Seq<Seq<char>>)
    ensures
        forall|i: int, k: int|
            0 <= i < k < dedup_first(s).len() ==> #[trigger] dedup_first(s)[i]
                != #[trigger] dedup_first(s)[k],
    decreases s.len(),
{
    if s.len() > 0 {
        lemma_dedup_distinct(s.drop_last());
        let prefix = dedup_first(s.drop_last());
        if !prefix.contains(s.last()) {
            assert forall|i: int, k: int|
                0 <= i < k < dedup_first(s).len() implies #[trigger] dedup_first(s)[i]
                != #[trigger] dedup_first(s)[k] by {
                if k < prefix.len() {
                    assert(dedup_first(s)[i] == prefix[i]);
                    assert(dedup_first(s)[k] == prefix[k]);
                } else {
                    assert(dedup_first(s)[k] == s.last());
                    assert(dedup_first(s)[i] == prefix[i]);
                    assert(!prefix.contains(s.last()));
                    if prefix[i] == s.last() {
                        assert(prefix.contains(s.last()));
                    }
                }
            }
        }
    }
}

/// The merged classpath list never holds a scope marker and never holds
/// the same entry twice, whatever entries the resolution step returned —
/// duplicates included.
pub proof fn lemma_merged_class_paths_clean(cps: Seq<Seq<char>>, resolved: Seq<Seq<Seq<char>>>)
    ensures
        forall|i: int|
            0 <= i < spec_merged_class_paths(cps, resolved).len() ==> !is_scope_marker(
                #[trigger] spec_merged_class_paths(cps, resolved)[i],
            ),
        forall|i: int, k: int|
            0 <= i < k < spec_merged_class_paths(cps, resolved).len()
                ==> #[trigger] spec_merged_class_paths(cps, resolved)[i]
                != #[trigger] spec_merged_class_paths(cps, resolved)[k],
{
    let combined = cps + resolved.flatten();
    let stripped = strip_scopes(combined);
    let merged = spec_merged_class_paths(cps, resolved);
    lemma_dedup_elements(stripped);
    lemma_dedup_distinct(stripped);
    assert forall|i: int| 0 <= i < merged.len() implies !is_scope_marker(
        #[trigger] merged[i],
    ) by {
        assert(stripped.contains(merged[i]));
        let k = choose|k: int| 0 <= k < stripped.len() && stripped[k] == merged[i];
        combined.lemma_filter_pred(|n: Seq<char>| !is_scope_marker(n), k);
    }
}

/// The member an optional string view contributes.
pub open spec fn opt_vstr_kv(key: Seq<char>, o: Option<Seq<char>>) -> Seq<(Seq<char>, Jv)> {
    match o {
        Some(s) => seq![(key, Jv::Str(s))],
        None => Seq::empty(),
    }
}

/// The members of the injected configuration: the original members with
/// the resolved entry point, the merged classpaths, and the defaulted
/// working directory in place of their former values.
pub open spec fn spec_injected_kvs(
    c: DebugLaunchConfig,
    m2: Option<Seq<char>>,
    p2: Option<Seq<char>>,
    merged: Seq<Seq<char>>,
    ws: Seq<char>,
) -> Seq<(Seq<char>, Jv)> {
    seq![("request"@, Jv::Str(c.request@))] + opt_vstr_kv("projectName"@, p2) + opt_vstr_kv(
        "mainClass"@,
        m2,
    ) + opt_str_kv("args"@, c.args) + opt_str_kv("vmArgs"@, c.vm_args) + opt_str_kv(
        "encoding"@,
        c.encoding,
    ) + seq![("classPaths"@, Jv::Arr(jv_strings(merged)))] + opt_list_kv(
        "modulePaths"@,
        c.module_paths,
    ) + seq![
        (
            "cwd"@,
            Jv::Str(
                match view_opt_str(c.cwd) {
                    Some(w) => w,
                    None => ws,
                },
            ),
        ),
    ] + opt_env_kv("env"@, c.env) + opt_bool_kv("stopOnEntry"@, c.stop_on_entry) + opt_bool_kv(
        "noDebug"@,
        c.no_debug,
    ) + opt_str_kv("console"@, c.console) + opt_str_kv(
        "shortenCommandLine"@,
        c.shorten_command_line,
    ) + opt_str_kv("launcherScript"@, c.launcher_script) + opt_str_kv("javaExec"@, c.java_exec)
}

/// Applies the injection results to a configuration: the resolved entry
/// point, the merged classpaths, and — when none was set — the workspace
/// root as the working directory.
pub fn finish_launch_config(
    c: DebugLaunchConfig,
    mc: Option<String>,
    pn: Option<String>,
    class_paths: Vec<String>,
    workspace: &str,
) -> (r: DebugLaunchConfig)
    ensures
        r.request == c.request,
        view_opt_str(r.main_class) == view_opt_str(mc),
        view_opt_str(r.project_name) == view_opt_str(pn),
        (r.class_paths matches Some(v) && v.deep_view() == class_paths.deep_view()),
        view_opt_str(r.cwd) == (match view_opt_str(c.cwd) {
            Some(w) => Some(w),
            None => Some(workspace@),
        }),
        r.args == c.args,
        r.vm_args == c.vm_args,
        r.encoding == c.encoding,
        r.module_paths == c.module_paths,
        r.env == c.env,
        r.stop_on_entry == c.stop_on_entry,
        r.no_debug == c.no_debug,
        r.console == c.console,
        r.shorten_command_line == c.shorten_command_line,
        r.launcher_script == c.launcher_script,
        r.java_exec == c.java_exec,
{
    let cwd: Option<String> = match c.cwd {
        Some(w) => Some(w),
        None => Some(workspace.to_owned()),
    };
    DebugLaunchConfig {
        main_class: mc,
        project_name: pn,
        class_paths: Some(class_paths),
        cwd,
        ..c
    }
}

/// Serializes a configuration and substitutes the workspace-folder
/// placeholder in the resulting text — a plain textual substitution,
/// performed after serialization.
pub fn render_config(c: &DebugLaunchConfig, workspace: &str) -> (r: String)
    ensures
        r@ == replace_all(
            jtext(Jv::Obj(spec_config_kvs(*c))),
            "${workspaceFolder}"@,
            workspace@,
        ),
{
    let j = launch_config_to_json(c);
    let text = to_json_string(&j);
    proof {
        reveal_strlit("${workspaceFolder}");
    }
    replace(text.as_str(), "${workspaceFolder}", workspace)
}

/// Rewrites a parsed launch configuration from the collaborator results:
/// resolves the entry point from `entries` (failing when several
/// candidates match), merges `resolved` into the classpaths, strips the
/// scope markers, removes duplicates, defaults the working directory, and
/// renders the result with the workspace-folder placeholder substituted.
pub fn inject_launch_config(
    c: DebugLaunchConfig,
    entries: &Vec<MainClassEntry>,
    resolved: &Vec<Vec<String>>,
    workspace: &str,
) -> (r: Result<String, BridgeError>)
    ensures
        match r {
            Err(e) => e == BridgeError::AmbiguousEntryPoint && exists|i: int, k: int|
                0 <= i < k < entries@.len() && entry_matches_hints(
                    #[trigger] entries@[i],
                    c.main_class,
                    c.project_name,
                ) && entry_matches_hints(#[trigger] entries@[k], c.main_class, c.project_name),
            Ok(s) => exists|m2: Option<Seq<char>>, p2: Option<Seq<char>>|
                {
                    &&& #[trigger] entry_choice(c, entries@, m2, p2)
                    &&& s@ == replace_all(
                        jtext(
                            Jv::Obj(
                                spec_injected_kvs(
                                    c,
                                    m2,
                                    p2,
                                    spec_merged_class_paths(
                                        spec_effective_class_paths(c.class_paths),
                                        resolved.deep_view(),
                                    ),
                                    workspace@,
                                ),
                            ),
                        ),
                        "${workspaceFolder}"@,
                        workspace@,
                    )
                },
        },
{
    let mc = &c.main_class;
    let pn = &c.project_name;
    let picked = resolve_entry_point(mc, pn, entries)?;
    let (m2, p2) = picked;
    let cps = effective_class_paths(&c.class_paths);
    let merged = merge_class_paths(&cps, resolved);
    let ghost m2v = view_opt_str(m2);
    let ghost p2v = view_opt_str(p2);
    proof {
        assert(entry_choice(c, entries@, m2v, p2v));
    }
    let finished = finish_launch_config(c, m2, p2, merged, workspace);
    let out = render_config(&finished, workspace);
    proof {
        assert(spec_config_kvs(finished) =~= spec_injected_kvs(
            c,
            m2v,
            p2v,
            spec_merged_class_paths(
                spec_effective_class_paths(c.class_paths),
                resolved.deep_view(),
            ),
            workspace@,
        ));
    }
    Ok(out)
}

/// The entry point the injector settles on: a single matching candidate
/// overrides the hints; no matching candidate leaves them unchanged.
pub open spec fn entry_choice(
    c: DebugLaunchConfig,
    entries: Seq<MainClassEntry>,
    m2: Option<Seq<char>>,
    p2: Option<Seq<char>>,
) -> bool {
    if exists|i: int|
        0 <= i < entries.len() && entry_matches_hints(
            #[trigger] entries[i],
            c.main_class,
            c.project_name,
        ) {
        exists|i: int|
            0 <= i < entries.len() && entry_matches_hints(
                #[trigger] entries[i],
                c.main_class,
                c.project_name,
            ) && (forall|k: int|
                0 <= k < entries.len() && k != i ==> !entry_matches_hints(
                    #[trigger] entries[k],
                    c.main_class,
                    c.project_name,
                )) && m2 == Some(entries[i].main_class@) && p2 == Some(entries[i].project_name@)
    } else {
        m2 == view_opt_str(c.main_class) && p2 == view_opt_str(c.project_name)
    }
}

/// The two kinds of debug request the adapter accepts.
#[derive(Clone, Copy, Debug, PartialEq, Eq, Structural)]
pub enum DapRequestKind {
    Launch,
    Attach,
}

/// Classifies a debug configuration's `request` field: exactly `launch`
/// or `attach` are accepted; a missing field and any other value are
/// distinct errors.
pub fn dap_request_kind(config: &Json) -> (r: Result<DapRequestKind, BridgeError>)
    ensures
        match r {
            Ok(DapRequestKind::Launch) => spec_obj_get(config@, "request"@) == Some(
                Jv::Str("launch"@),
            ),
            Ok(DapRequestKind::Attach) => spec_obj_get(config@, "request"@) == Some(
                Jv::Str("attach"@),
            ),
            Err(BridgeError::MissingRequest) => spec_obj_get(config@, "request"@) is None,
            Err(BridgeError::UnexpectedRequest) => (spec_obj_get(config@, "request"@) matches Some(
                v,
            ) && v != Jv::Str("launch"@) && v != Jv::Str("attach"@)),
            Err(_) => false,
        },
{
    match obj_get(config, "request") {
        None => Err(BridgeError::MissingRequest),
        Some(Json::Str(s)) => {
            if str_eq(s.as_str(), "launch") {
                Ok(DapRequestKind::Launch)
            } else if str_eq(s.as_str(), "attach") {
                Ok(DapRequestKind::Attach)
            } else {
                Err(BridgeError::UnexpectedRequest)
            }
        },
        Some(_) => Err(BridgeError::UnexpectedRequest),
    }
}

/// The attach configuration handed to the adapter: with a process id, an
/// attach request naming it (and whether to stop on entry); without one,
/// an attach request for the default local debug port.
pub open spec fn spec_attach_config(process_id: Option<u32>, stop_on_entry: Option<bool>) -> Jv {
    match process_id {
        Some(pid) => Jv::Obj(
            seq![
                ("request"@, Jv::Str("attach"@)),
                ("processId"@, Jv::Num(crate::strutil::dec_spec(pid as int))),
                (
                    "stopOnEntry"@,
                    match stop_on_entry {
                        Some(b) => Jv::Bool(b),
                        None => Jv::Null,
                    },
                ),
            ],
        ),
        None => Jv::Obj(
            seq![
                ("request"@, Jv::Str("attach"@)),
                ("hostName"@, Jv::Str("localhost"@)),
                ("port"@, Jv::Num("5005"@)),
            ],
        ),
    }
}

/// Builds the attach configuration for a debug scenario.
pub fn attach_config_json(process_id: Option<u32>, stop_on_entry: Option<bool>) -> (r: Json)
    ensures
        r@ == spec_attach_config(process_id, stop_on_entry),
{
    let mut kvs: Vec<(String, Json)> = Vec::new();
    proof {
        assert(jv_of_kvs(kvs@) =~= Seq::<(Seq<char>, Jv)>::empty());
    }
    obj_push(&mut kvs, "request", Json::Str("attach".to_owned()));
    match process_id {
        Some(pid) => {
            obj_push(&mut kvs, "processId", Json::Num(crate::strutil::u32_to_decimal(pid)));
            match stop_on_entry {
                Some(b) => obj_push(&mut kvs, "stopOnEntry", Json::Bool(b)),
                None => obj_push(&mut kvs, "stopOnEntry", Json::Null),
            }
            proof {
                assert(jv_of_kvs(kvs@) =~= seq![
                    ("request"@, Jv::Str("attach"@)),
                    ("processId"@, Jv::Num(crate::strutil::dec_spec(pid as int))),
                    (
                        "stopOnEntry"@,
                        match stop_on_entry {
                            Some(b) => Jv::Bool(b),
                            None => Jv::Null,
                        },
                    ),
                ]);
            }
        },
        None => {
            obj_push(&mut kvs, "hostName", Json::Str("localhost".to_owned()));
            obj_push(&mut kvs, "port", Json::Num("5005".to_owned()));
            proof {
                assert(jv_of_kvs(kvs@) =~= seq![
                    ("request"@, Jv::Str("attach"@)),
                    ("hostName"@, Jv::Str("localhost"@)),
                    ("port"@, Jv::Num("5005"@)),
                ]);
            }
        },
    }
    Json::Obj(kvs)
}

/// `kvs` with the first member named `key` rebound to `v`; unchanged when
/// no member is named `key`.
pub open spec fn kvs_set(kvs: Seq<(Seq<char>, Jv)>, key: Seq<char>, v: Jv) -> Seq<(Seq<char>, Jv)>
    decreases kvs,
{
    if kvs.len() == 0 {
        kvs
    } else if kvs[0].0 == key {
        seq![(key, v)] + kvs.drop_first()
    } else {
        seq![kvs[0]] + kvs_set(kvs.drop_first(), key, v)
    }
}

/// `items` with the bundle path present: unchanged when already there,
/// appended otherwise.
pub open spec fn with_bundle(items: Seq<Jv>, canon: Seq<char>) -> Seq<Jv> {
    if items.contains(Jv::Str(canon)) {
        items
    } else {
        items.push(Jv::Str(canon))
    }
}

/// What injecting the plugin path `canon` into initialization options
/// yields: absent options become an object holding only a one-element
/// `bundles` array; otherwise `bundles` must be absent (it is appended) or
/// an array (the path is added if missing, every other member untouched).
pub open spec fn spec_inject_bundle(o: Option<Jv>, canon: Seq<char>) -> Result<Jv, BridgeError> {
    match o {
        None => Ok(Jv::Obj(seq![("bundles"@, Jv::Arr(seq![Jv::Str(canon)]))])),
        Some(Jv::Obj(kvs)) => match spec_kvs_get(kvs, "bundles"@) {
            Some(Jv::Arr(items)) => Ok(
                Jv::Obj(kvs_set(kvs, "bundles"@, Jv::Arr(with_bundle(items, canon)))),
            ),
            Some(_) => Err(BridgeError::InvalidInitOptions),
            None => Ok(Jv::Obj(kvs.push(("bundles"@, Jv::Arr(seq![Jv::Str(canon)]))))),
        },
        Some(_) => Err(BridgeError::InvalidInitOptions),
    }
}

proof fn lemma_kvs_get_at(kvs: Seq<(Seq<char>, Jv)>, key: Seq<char>, i: int)
    requires
        0 <= i < kvs.len(),
        kvs[i].0 == key,
        forall|k: int| 0 <= k < i ==> (#[trigger] kvs[k]).0 != key,
    ensures
        spec_kvs_get(kvs, key) == Some(kvs[i].1),
    decreases i,
{
    if i > 0 {
        assert(kvs[0].0 != key);
        lemma_kvs_get_at(kvs.drop_first(), key, i - 1);
        assert(kvs.drop_first()[i - 1] == kvs[i]);
        assert(forall|k: int|
            0 <= k < i - 1 ==> (#[trigger] kvs.drop_first()[k]).0 == kvs[k + 1].0);
    }
}

proof fn lemma_kvs_get_none(kvs: Seq<(Seq<char>, Jv)>, key: Seq<char>)
    requires
        forall|k: int| 0 <= k < kvs.len() ==> (#[trigger] kvs[k]).0 != key,
    ensures
        spec_kvs_get(kvs, key) is None,
    decreases kvs,
{
    if kvs.len() > 0 {
        assert(forall|k: int|
            0 <= k < kvs.drop_first().len() ==> (#[trigger] kvs.drop_first()[k]).0 == kvs[
                k + 1].0);
        lemma_kvs_get_none(kvs.drop_first(), key);
    }
}

proof fn lemma_kvs_set_at(kvs: Seq<(Seq<char>, Jv)>, key: Seq<char>, i: int, v: Jv)
    requires
        0 <= i < kvs.len(),
        kvs[i].0 == key,
        forall|k: int| 0 <= k < i ==> (#[trigger] kvs[k]).0 != key,
    ensures
        kvs_set(kvs, key, v) == kvs.update(i, (key, v)),
    decreases i,
{
    if i == 0 {
        assert(kvs_set(kvs, key, v) =~= kvs.update(0, (key, v)));
    } else {
        assert(kvs[0].0 != key);
        assert(forall|k: int|
            0 <= k < i - 1 ==> (#[trigger] kvs.drop_first()[k]).0 == kvs[k + 1].0);
        assert(kvs.drop_first()[i - 1] == kvs[i]);
        lemma_kvs_set_at(kvs.drop_first(), key, i - 1, v);
        assert(kvs_set(kvs, key, v) =~= kvs.update(i, (key, v)));
    }
}

impl Debugger {
    /// Injects the plugin's canonical path into the initialization
    /// options: a `bundles` array is created or extended so that the path
    /// appears in it, never twice; a `bundles` member that is not an array
    /// is an error, as is an unresolved plugin.  `current_dir` is the
    /// extension working directory the relative plugin path is anchored
    /// to.
    pub fn inject_plugin_into_options(&self, options: Option<Json>, current_dir: &str) -> (r:
        Result<Json, BridgeError>)
        requires
            options matches Some(o) ==> o@ is Obj,
        ensures
            match (r, self.spec_plugin_path()) {
                (Err(BridgeError::DebuggerNotLoaded), pp) => pp is None,
                (Err(e), Some(pp)) => spec_inject_bundle(
                    match options {
                        Some(o) => Some(o@),
                        None => None,
                    },
                    join_spec(current_dir@, pp),
                ) == Err::<Jv, BridgeError>(e),
                (Ok(out), Some(pp)) => spec_inject_bundle(
                    match options {
                        Some(o) => Some(o@),
                        None => None,
                    },
                    join_spec(current_dir@, pp),
                ) == Ok::<Jv, BridgeError>(out@),
                _ => false,
            },
    {
        let plugin: &String = match &self.plugin_path {
            Some(p) => p,
            None => {
                return Err(BridgeError::DebuggerNotLoaded);
            },
        };
        let canon = path_join(current_dir, plugin.as_str());
        match options {
            None => {
                let bundles: Vec<Json> = vec![Json::Str(canon)];
                let ghost cv = join_spec(current_dir@, plugin@);
                proof {
                    crate::json::lemma_jv_of_seq_index(bundles@);
                    assert(jv_of_seq(bundles@) =~= seq![Jv::Str(cv)]);
                }
                let mut kvs: Vec<(String, Json)> = Vec::new();
                obj_push(&mut kvs, "bundles", Json::Arr(bundles));
                proof {
                    assert(jv_of_kvs(kvs@) =~= seq![("bundles"@, Jv::Arr(seq![Jv::Str(cv)]))]);
                }
                Ok(Json::Obj(kvs))
            },
            Some(Json::Obj(mut kvs)) => {
                let ghost kv0 = jv_of_kvs(kvs@);
                let ghost cv = join_spec(current_dir@, plugin@);
                proof {
                    crate::json::lemma_jv_of_kvs_index(kvs@);
                }
                let n = kvs.len();
                let mut found: Option<usize> = None;
                let mut i: usize = 0;
                while i < n
                    invariant
                        n == kvs@.len(),
                        0 <= i <= n,
                        kv0 == jv_of_kvs(kvs@),
                        kv0.len() == n,
                        forall|k: int|
                            0 <= k < n ==> kv0[k] == ((#[trigger] kvs@[k]).0@, jv_of(kvs@[k].1)),
                        match found {
                            Some(f) => f < i && kv0[f as int].0 == "bundles"@ && forall|k: int|
                                0 <= k < f ==> (#[trigger] kv0[k]).0 != "bundles"@,
                            None => forall|k: int| 0 <= k < i ==> (#[trigger] kv0[k]).0 != "bundles"@,
                        },
                    decreases n - i,
                {
                    if found.is_none() {
                        if str_eq(kvs[i].0.as_str(), "bundles") {
                            found = Some(i);
                        }
                    }
                    i = i + 1;
                }
                match found {
                    None => {
                        proof {
                            lemma_kvs_get_none(kv0, "bundles"@);
                        }
                        let bundles: Vec<Json> = vec![Json::Str(canon)];
                        proof {
                            crate::json::lemma_jv_of_seq_index(bundles@);
                            assert(jv_of_seq(bundles@) =~= seq![Jv::Str(cv)]);
                        }
                        obj_push(&mut kvs, "bundles", Json::Arr(bundles));
                        Ok(Json::Obj(kvs))
                    },
                    Some(f) => {
                        match &kvs[f].1 {
                            Json::Arr(items) => {
                                proof {
                                    lemma_kvs_get_at(kv0, "bundles"@, f as int);
                                }
                                let ghost items0 = jv_of_seq(items@);
                                let m = items.len();
                                let mut new_items: Vec<Json> = Vec::new();
                                let mut present = false;
                                let mut t: usize = 0;
                                proof {
                                    assert(jv_of_seq(new_items@) =~= Seq::<Jv>::empty());
                                    assert(items@.subrange(0, 0) =~= Seq::<Json>::empty());
                                    assert(jv_of_seq(items@.subrange(0, 0)) =~= Seq::<Jv>::empty());
                                    crate::json::lemma_jv_of_seq_index(items@);
                                }
                                while t < m
                                    invariant
                                        canon@ == cv,
                                        m == items@.len(),
                                        0 <= t <= m,
                                        new_items@.len() == t,
                                        items0 == jv_of_seq(items@),
                                        items0.len() == m,
                                        forall|k: int|
                                            0 <= k < m ==> items0[k] == jv_of(
                                                #[trigger] items@[k],
                                            ),
                                        jv_of_seq(new_items@) == items0.subrange(0, t as int),
                                        present == exists|k: int|
                                            0 <= k < t && #[trigger] items0[k] == Jv::Str(cv),
                                    decreases m - t,
                                {
                                    let c = json_clone(&items[t]);
                                    if crate::json::is_str_value(&c, canon.as_str()) {
                                        present = true;
                                    }
                                    let ghost prev = new_items@;
                                    new_items.push(c);
                                    proof {
                                        assert(new_items@.subrange(0, new_items@.len() - 1)
                                            =~= prev);
                                        crate::json::lemma_jv_of_seq_snoc(
                                            new_items@,
                                            new_items@.len() - 1,
                                        );
                                        assert(new_items@.subrange(0, new_items@.len() as int)
                                            =~= new_items@);
                                        assert(items0.subrange(0, t + 1) =~= items0.subrange(
                                            0,
                                            t as int,
                                        ).push(items0[t as int]));
                                    }
                                    t = t + 1;
                                }
                                proof {
                                    assert(items0.subrange(0, m as int) =~= items0);
                                    assert(present == items0.contains(Jv::Str(cv))) by {
                                        if present {
                                            let k = choose|k: int|
                                                0 <= k < m && #[trigger] items0[k] == Jv::Str(cv);
                                            assert(items0.contains(Jv::Str(cv)));
                                        }
                                    }
                                }
                                if !present {
                                    let ghost prev = new_items@;
                                    new_items.push(Json::Str(canon.clone()));
                                    proof {
                                        assert(new_items@.subrange(0, new_items@.len() - 1)
                                            =~= prev);
                                        crate::json::lemma_jv_of_seq_snoc(
                                            new_items@,
                                            new_items@.len() - 1,
                                        );
                                        assert(new_items@.subrange(0, new_items@.len() as int)
                                            =~= new_items@);
                                        assert(jv_of_seq(new_items@) =~= with_bundle(items0, cv));
                                    }
                                } else {
                                    proof {
                                        assert(jv_of_seq(new_items@) =~= with_bundle(items0, cv));
                                    }
                                }
                                let ghost before = kvs@;
                                kvs[f] = ("bundles".to_owned(), Json::Arr(new_items));
                                proof {
                                    lemma_kvs_set_at(
                                        kv0,
                                        "bundles"@,
                                        f as int,
                                        Jv::Arr(with_bundle(items0, cv)),
                                    );
                                    crate::json::lemma_jv_of_kvs_index(kvs@);
                                    crate::json::lemma_jv_of_kvs_index(before);
                                    assert(kv0 == jv_of_kvs(before));
                                    let upd = kv0.update(
                                        f as int,
                                        ("bundles"@, Jv::Arr(with_bundle(items0, cv))),
                                    );
                                    assert forall|k: int| 0 <= k < n implies jv_of_kvs(kvs@)[k]
                                        == upd[k] by {
                                        assert(jv_of_kvs(kvs@)[k] == (kvs@[k].0@, jv_of(kvs@[k].1)));
                                        if k != f {
                                            assert(kvs@[k] == before[k]);
                                            assert(jv_of_kvs(before)[k] == (
                                                before[k].0@,
                                                jv_of(before[k].1),
                                            ));
                                        }
                                    }
                                    assert(jv_of_kvs(kvs@) =~= upd);
                                }
                                Ok(Json::Obj(kvs))
                            },
                            _ => {
                                proof {
                                    lemma_kvs_get_at(kv0, "bundles"@, f as int);
                                    assert(!(kv0[f as int].1 is Arr));
                                }
                                Err(BridgeError::InvalidInitOptions)
                            },
                        }
                    },
                }
            },
            Some(_) => {
                proof {
                    assert(false);
                }
                Err(BridgeError::InvalidInitOptions)
            },
        }
    }
}

/// How often the bundle path occurs among the bundle entries.
pub open spec fn count_bundle(items: Seq<Jv>, canon: Seq<char>) -> int
    decreases items,
{
    if items.len() == 0 {
        0int
    } else {
        count_bundle(items.drop_last(), canon) + if items.last() == Jv::Str(canon) {
            1int
        } else {
            0int
        }
    }
}

proof fn lemma_count_bundle_nonneg(items: Seq<Jv>, canon: Seq<char>)
    ensures
        count_bundle(items, canon) >= 0,
    decreases items,
{
    if items.len() > 0 {
        lemma_count_bundle_nonneg(items.drop_last(), canon);
    }
}

proof fn lemma_count_bundle_contains(items: Seq<Jv>, canon: Seq<char>)
    ensures
        items.contains(Jv::Str(canon)) == (count_bundle(items, canon) >= 1),
    decreases items,
{
    lemma_count_bundle_nonneg(items, canon);
    if items.len() > 0 {
        lemma_count_bundle_contains(items.drop_last(), canon);
        lemma_count_bundle_nonneg(items.drop_last(), canon);
        if items.contains(Jv::Str(canon)) {
            let k = choose|k: int| 0 <= k < items.len() && items[k] == Jv::Str(canon);
            if k < items.len() - 1 {
                assert(items.drop_last()[k] == items[k]);
                assert(items.drop_last().contains(Jv::Str(canon)));
            }
        }
        if items.drop_last().contains(Jv::Str(canon)) {
            let k = choose|k: int|
                0 <= k < items.drop_last().len() && items.drop_last()[k] == Jv::Str(canon);
            assert(items[k] == Jv::Str(canon));
            assert(items.contains(Jv::Str(canon)));
        }
    }
}

/// Injecting a bundle path makes it appear exactly once when it was
/// absent, and leaves its count unchanged when it was already present.
pub proof fn lemma_with_bundle_count(items: Seq<Jv>, canon: Seq<char>)
    ensures
        count_bundle(with_bundle(items, canon), canon) == if items.contains(Jv::Str(canon)) {
            count_bundle(items, canon)
        } else {
            count_bundle(items, canon) + 1
        },
        count_bundle(items, canon) == 0 ==> count_bundle(with_bundle(items, canon), canon) == 1,
{
    lemma_count_bundle_contains(items, canon);
    if !items.contains(Jv::Str(canon)) {
        assert(with_bundle(items, canon) == items.push(Jv::Str(canon)));
        assert(items.push(Jv::Str(canon)).drop_last() =~= items);
        assert(items.push(Jv::Str(canon)).last() == Jv::Str(canon));
    }
}

proof fn lemma_kvs_get_of_set(kvs: Seq<(Seq<char>, Jv)>, key: Seq<char>, v: Jv)
    requires
        spec_kvs_get(kvs, key) is Some,
    ensures
        spec_kvs_get(kvs_set(kvs, key, v), key) == Some(v),
    decreases kvs,
{
    if kvs.len() > 0 {
        if kvs[0].0 == key {
            assert(kvs_set(kvs, key, v)[0] == (key, v));
        } else {
            lemma_kvs_get_of_set(kvs.drop_first(), key, v);
            assert(kvs_set(kvs, key, v)[0] == kvs[0]);
            assert(kvs_set(kvs, key, v).drop_first() =~= kvs_set(kvs.drop_first(), key, v));
        }
    }
}

proof fn lemma_kvs_set_same(kvs: Seq<(Seq<char>, Jv)>, key: Seq<char>, v: Jv)
    requires
        spec_kvs_get(kvs, key) == Some(v),
    ensures
        kvs_set(kvs, key, v) == kvs,
    decreases kvs,
{
    if kvs.len() > 0 {
        if kvs[0].0 == key {
            assert(kvs[0] == (key, v));
            assert(kvs_set(kvs, key, v) =~= kvs);
        } else {
            lemma_kvs_set_same(kvs.drop_first(), key, v);
            assert(kvs_set(kvs, key, v) =~= kvs);
        }
    }
}

proof fn lemma_kvs_get_push(kvs: Seq<(Seq<char>, Jv)>, key: Seq<char>, v: Jv)
    requires
        spec_kvs_get(kvs, key) is None,
    ensures
        spec_kvs_get(kvs.push((key, v)), key) == Some(v),
    decreases kvs,
{
    if kvs.len() == 0 {
        assert(kvs.push((key, v))[0] == (key, v));
    } else {
        assert(kvs[0].0 != key);
        assert(kvs.push((key, v))[0] == kvs[0]);
        assert(kvs.push((key, v)).drop_first() =~= kvs.drop_first().push((key, v)));
        lemma_kvs_get_push(kvs.drop_first(), key, v);
    }
}

/// Bundle injection is idempotent: injecting the same plugin path twice
/// yields exactly what the first injection yielded.
pub proof fn lemma_inject_bundle_idempotent(o: Option<Jv>, canon: Seq<char>)
    requires
        o matches Some(v) ==> v is Obj,
    ensures
        spec_inject_bundle(o, canon) matches Ok(o1) ==> spec_inject_bundle(Some(o1), canon)
            == Ok::<Jv, BridgeError>(o1),
{
    if let Ok(o1) = spec_inject_bundle(o, canon) {
        match o {
            None => {
                let kvs1 = seq![("bundles"@, Jv::Arr(seq![Jv::Str(canon)]))];
                assert(spec_kvs_get(kvs1, "bundles"@) == Some(Jv::Arr(seq![Jv::Str(canon)])));
                assert(seq![Jv::Str(canon)].contains(Jv::Str(canon))) by {
                    assert(seq![Jv::Str(canon)][0] == Jv::Str(canon));
                }
                lemma_kvs_set_same(kvs1, "bundles"@, Jv::Arr(seq![Jv::Str(canon)]));
            },
            Some(Jv::Obj(kvs)) => {
                match spec_kvs_get(kvs, "bundles"@) {
                    Some(Jv::Arr(items)) => {
                        let wb = with_bundle(items, canon);
                        assert(wb.contains(Jv::Str(canon))) by {
                            if items.contains(Jv::Str(canon)) {
                                let k = choose|k: int|
                                    0 <= k < items.len() && items[k] == Jv::Str(canon);
                                assert(wb[k] == Jv::Str(canon));
                            } else {
                                assert(wb[wb.len() - 1] == Jv::Str(canon));
                            }
                        }
                        let kvs2 = kvs_set(kvs, "bundles"@, Jv::Arr(wb));
                        lemma_kvs_get_of_set(kvs, "bundles"@, Jv::Arr(wb));
                        assert(with_bundle(wb, canon) == wb);
                        lemma_kvs_set_same(kvs2, "bundles"@, Jv::Arr(wb));
                    },
                    Some(_) => {},
                    None => {
                        let kvs2 = kvs.push(("bundles"@, Jv::Arr(seq![Jv::Str(canon)])));
                        lemma_kvs_get_push(kvs, "bundles"@, Jv::Arr(seq![Jv::Str(canon)]));
                        assert(seq![Jv::Str(canon)].contains(Jv::Str(canon))) by {
                            assert(seq![Jv::Str(canon)][0] == Jv::Str(canon));
                        }
                        lemma_kvs_set_same(kvs2, "bundles"@, Jv::Arr(seq![Jv::Str(canon)]));
                    },
                }
            },
            Some(_) => {},
        }
    }
}

/// After one injection the bundle path is present exactly once, provided
/// it was not already present; repeated injection (by idempotence) keeps
/// it at exactly once.
pub proof fn lemma_inject_bundle_once(o: Option<Jv>, canon: Seq<char>)
    requires
        match o {
            None => true,
            Some(Jv::Obj(kvs)) => match spec_kvs_get(kvs, "bundles"@) {
                Some(Jv::Arr(items)) => count_bundle(items, canon) == 0,
                Some(_) => false,
                None => true,
            },
            Some(_) => false,
        },
    ensures
        spec_inject_bundle(o, canon) matches Ok(o1) && (o1 matches Jv::Obj(kvs1) && (spec_kvs_get(
            kvs1,
            "bundles"@,
        ) matches Some(Jv::Arr(b1)) && count_bundle(b1, canon) == 1)),
{
    let single = seq![Jv::Str(canon)];
    assert(single.drop_last() =~= Seq::<Jv>::empty());
    assert(count_bundle(single.drop_last(), canon) == 0);
    assert(single.last() == Jv::Str(canon));
    assert(count_bundle(single, canon) == 1);
    match o {
        None => {
            let kvs1 = seq![("bundles"@, Jv::Arr(single))];
            assert(spec_kvs_get(kvs1, "bundles"@) == Some(Jv::Arr(single)));
        },
        Some(Jv::Obj(kvs)) => {
            match spec_kvs_get(kvs, "bundles"@) {
                Some(Jv::Arr(items)) => {
                    lemma_count_bundle_contains(items, canon);
                    lemma_with_bundle_count(items, canon);
                    lemma_kvs_get_of_set(kvs, "bundles"@, Jv::Arr(with_bundle(items, canon)));
                },
                Some(_) => {},
                None => {
                    lemma_kvs_get_push(kvs, "bundles"@, Jv::Arr(single));
                },
            }
        },
        Some(_) => {},
    }
}

} // verus!
