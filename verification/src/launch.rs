//! Launch planning for the language-intelligence process: locating a
//! runtime, gating on its major version, choosing the launcher jar, naming
//! the per-workspace data directory, and assembling the full argument
//! vector.

use vstd::prelude::*;
use crate::digest::{get_sha1_hex, hex_of_bytes, sha1_of};
use crate::error::BridgeError;
use crate::platform::{Os, spec_java_exec_name, get_java_exec_name};
use crate::strutil::{join_spec, match_at, path_join, str_eq, starts_with, ends_with};
use vstd::string::StringSliceAdditionalSpecFns;

verus! {

/// Smallest runtime major version able to run the language server.
pub const MIN_JAVA_MAJOR: u32 = 21;

/// Major version from which extra XML entity-limit flags are passed.
pub const XML_FLAGS_JAVA_MAJOR: u32 = 24;

/// Where the Java executable comes from.
#[derive(Debug)]
pub enum JavaExecSource {
    /// `bin/<executable>` under the configured runtime home.
    ConfiguredHome(String),
    /// An executable found on the search path.
    SearchPath(String),
    /// The caller must fetch a runtime distribution first.
    AutoDownload,
    /// Nothing configured, nothing on the path, auto-download not allowed.
    NotFound,
}

/// Plans where the Java executable is taken from, in order of preference:
/// the configured runtime home, then the search path, then auto-download
/// where the user opted in.
pub fn plan_java_executable(
    java_home: Option<String>,
    which_result: Option<String>,
    autodownload: bool,
    os: Os,
) -> (r: JavaExecSource)
    ensures
        match r {
            JavaExecSource::ConfiguredHome(p) => (java_home matches Some(h) && p@ == join_spec(
                join_spec(h@, "bin"@),
                spec_java_exec_name(os),
            )),
            JavaExecSource::SearchPath(p) => java_home is None && (which_result matches Some(w)
                && p@ == w@),
            JavaExecSource::AutoDownload => java_home is None && which_result is None
                && autodownload,
            JavaExecSource::NotFound => java_home is None && which_result is None && !autodownload,
        },
{
    let exec_name = get_java_exec_name(os);
    if let Some(h) = java_home {
        let bin = path_join(h.as_str(), "bin");
        return JavaExecSource::ConfiguredHome(path_join(bin.as_str(), exec_name.as_str()));
    }
    if let Some(w) = which_result {
        return JavaExecSource::SearchPath(w);
    }
    if autodownload {
        JavaExecSource::AutoDownload
    } else {
        JavaExecSource::NotFound
    }
}

/// What to do with a runtime of the given major version.
#[derive(Clone, Copy, Debug, PartialEq, Eq, Structural)]
pub enum RuntimeGate {
    /// The runtime meets the minimum version.
    UseCurrent,
    /// Too old, but the user allows fetching a compliant runtime.
    FetchCompliant,
    /// Too old, and fetching is not allowed.
    Reject,
}

/// Gates a resolved runtime on the minimum supported major version.
pub fn runtime_version_gate(major: u32, autodownload: bool) -> (r: RuntimeGate)
    ensures
        (r == RuntimeGate::UseCurrent) == (major >= MIN_JAVA_MAJOR),
        (r == RuntimeGate::FetchCompliant) == (major < MIN_JAVA_MAJOR && autodownload),
        (r == RuntimeGate::Reject) == (major < MIN_JAVA_MAJOR && !autodownload),
{
    if major >= MIN_JAVA_MAJOR {
        RuntimeGate::UseCurrent
    } else if autodownload {
        RuntimeGate::FetchCompliant
    } else {
        RuntimeGate::Reject
    }
}

/// The exact launcher jar name preferred over any glob match.
pub open spec fn spec_exact_launcher() -> Seq<char> {
    "org.eclipse.equinox.launcher.jar"@
}

/// A name the launcher glob accepts: `org.eclipse.equinox.launcher_*.jar`.
pub open spec fn spec_is_launcher_glob(n: Seq<char>) -> bool {
    &&& match_at(n, "org.eclipse.equinox.launcher_"@, 0)
    &&& ".jar"@.len() <= n.len()
    &&& match_at(n, ".jar"@, n.len() - ".jar"@.len())
}

/// Selects the launcher jar among the names listed under the `plugins`
/// directory: the exact launcher name when present, otherwise the first
/// listed glob match, otherwise an error.
pub fn select_equinox_launcher(entries: &Vec<String>) -> (r: Result<String, BridgeError>)
    ensures
        match r {
            Ok(n) => {
                if exists|k: int|
                    0 <= k < entries.deep_view().len() && #[trigger] entries.deep_view()[k]
                        == spec_exact_launcher() {
                    n@ == spec_exact_launcher()
                } else {
                    exists|i: int|
                        0 <= i < entries.deep_view().len() && spec_is_launcher_glob(
                            #[trigger] entries.deep_view()[i],
                        ) && n@ == entries.deep_view()[i] && forall|j: int|
                            0 <= j < i ==> !spec_is_launcher_glob(#[trigger] entries.deep_view()[j])
                }
            },
            Err(e) => e == BridgeError::NoEquinoxLauncher && (forall|k: int|
                0 <= k < entries.deep_view().len() ==> #[trigger] entries.deep_view()[k]
                    != spec_exact_launcher()) && (forall|i: int|
                0 <= i < entries.deep_view().len() ==> !spec_is_launcher_glob(
                    #[trigger] entries.deep_view()[i],
                )),
        },
{
    let n = entries.len();
    let mut i: usize = 0;
    while i < n
        invariant
            n == entries@.len(),
            0 <= i <= n,
            forall|k: int| 0 <= k < i ==> #[trigger] entries.deep_view()[k] != spec_exact_launcher(),
        decreases n - i,
    {
        proof {
            assert(entries.deep_view()[i as int] == entries@[i as int]@);
        }
        if str_eq(entries[i].as_str(), "org.eclipse.equinox.launcher.jar") {
            return Ok(entries[i].clone());
        }
        i = i + 1;
    }
    let mut i: usize = 0;
    while i < n
        invariant
            n == entries@.len(),
            0 <= i <= n,
            forall|j: int| 0 <= j < i ==> !spec_is_launcher_glob(#[trigger] entries.deep_view()[j]),
            forall|k: int| 0 <= k < n ==> #[trigger] entries.deep_view()[k] != spec_exact_launcher(),
        decreases n - i,
    {
        proof {
            assert(entries.deep_view()[i as int] == entries@[i as int]@);
        }
        let hit = starts_with(entries[i].as_str(), "org.eclipse.equinox.launcher_") && ends_with(
            entries[i].as_str(),
            ".jar",
        );
        if hit {
            return Ok(entries[i].clone());
        }
        i = i + 1;
    }
    Err(BridgeError::NoEquinoxLauncher)
}

/// The platform cache directory the data directory lives under: derived
/// from the home directory (or the roaming application-data directory on
/// Windows), with the extension working directory as a last resort.
pub open spec fn spec_cache_base(
    os: Os,
    home: Option<Seq<char>>,
    appdata: Option<Seq<char>>,
    fallback_workdir: Seq<char>,
) -> Seq<char> {
    match os {
        Os::Mac => match home {
            Some(h) => join_spec(join_spec(h, "Library"@), "Caches"@),
            None => join_spec(fallback_workdir, "caches"@),
        },
        Os::Linux => match home {
            Some(h) => join_spec(h, ".cache"@),
            None => join_spec(fallback_workdir, "caches"@),
        },
        Os::Windows => match appdata {
            Some(a) => a,
            None => join_spec(fallback_workdir, "caches"@),
        },
    }
}

/// The per-workspace data directory: a name derived from a digest of the
/// workspace root, under the platform cache directory.
pub open spec fn spec_data_path(
    os: Os,
    home: Option<Seq<char>>,
    appdata: Option<Seq<char>>,
    fallback_workdir: Seq<char>,
    root_digest_hex: Seq<char>,
) -> Seq<char> {
    join_spec(spec_cache_base(os, home, appdata, fallback_workdir), "jdtls-"@ + root_digest_hex)
}

/// Names the per-workspace data directory where the language server keeps
/// its own caches.  `home` and `appdata` are the `HOME` and `APPDATA`
/// values of the host shell environment; the name is unique per workspace
/// root through a digest of the root path.
pub fn get_jdtls_data_path(
    os: Os,
    home: Option<&str>,
    appdata: Option<&str>,
    fallback_workdir: &str,
    worktree_root: &str,
) -> (r: String)
    ensures
        r@ == spec_data_path(
            os,
            match home {
                Some(h) => Some(h@),
                None => None,
            },
            match appdata {
                Some(a) => Some(a@),
                None => None,
            },
            fallback_workdir@,
            hex_of_bytes(sha1_of(worktree_root.spec_bytes())),
        ),
{
    let base: String = match os {
        Os::Mac => match home {
            Some(h) => {
                let lib = path_join(h, "Library");
                path_join(lib.as_str(), "Caches")
            },
            None => path_join(fallback_workdir, "caches"),
        },
        Os::Linux => match home {
            Some(h) => path_join(h, ".cache"),
            None => path_join(fallback_workdir, "caches"),
        },
        Os::Windows => match appdata {
            Some(a) => a.to_owned(),
            None => path_join(fallback_workdir, "caches"),
        },
    };
    let digest = get_sha1_hex(worktree_root);
    let mut unique = "jdtls-".to_owned();
    unique.append(digest.as_str());
    path_join(base.as_str(), unique.as_str())
}

/// The argument list handed to the proxy runner: module flags, the proxy
/// program source, and the extension working directory the proxy anchors
/// its port files to.
pub fn proxy_args(proxy_source: &str, workdir: &str) -> (r: Vec<String>)
    ensures
        r.deep_view() == seq!["--input-type=module"@, "-e"@, proxy_source@, workdir@],
{
    let args: Vec<String> = vec![
        "--input-type=module".to_owned(),
        "-e".to_owned(),
        proxy_source.to_owned(),
        workdir.to_owned(),
    ];
    proof {
        assert(args.deep_view() =~= seq!["--input-type=module"@, "-e"@, proxy_source@, workdir@]);
    }
    args
}

/// The agent flag handed to the runtime for an annotation-processing jar.
pub fn javaagent_arg(jar_path: &str) -> (r: String)
    ensures
        r@ == "-javaagent:"@ + jar_path@,
{
    let mut out = "-javaagent:".to_owned();
    out.append(jar_path);
    out
}

/// Wraps a runtime flag for the launcher script's argument syntax.
pub fn jvm_arg_flag(arg: &str) -> (r: String)
    ensures
        r@ == "--jvm-arg="@ + arg@,
{
    let mut out = "--jvm-arg=".to_owned();
    out.append(arg);
    out
}

/// The full argument vector for launching the language server directly:
/// runtime executable, module-system and shared-configuration properties,
/// the minimum heap flag, the caller's extra runtime arguments (so an
/// agent takes effect before the launcher jar loads), the launcher jar,
/// the per-workspace data directory, and — for runtimes at major version
/// 24 or newer — the XML entity-limit flags.
pub open spec fn spec_launch_args(
    java: Seq<char>,
    shared_config: Seq<char>,
    launcher_jar: Seq<char>,
    data_path: Seq<char>,
    jvm_args: Seq<Seq<char>>,
    major: u32,
) -> Seq<Seq<char>> {
    let head = seq![
        java,
        "-Declipse.application=org.eclipse.jdt.ls.core.id1"@,
        "-Dosgi.bundles.defaultStartLevel=4"@,
        "-Declipse.product=org.eclipse.jdt.ls.core.product"@,
        "-Dosgi.checkConfiguration=true"@,
        "-Dosgi.sharedConfiguration.area="@ + shared_config,
        "-Dosgi.sharedConfiguration.area.readOnly=true"@,
        "-Dosgi.configuration.cascaded=true"@,
        "-Xms1G"@,
        "--add-modules=ALL-SYSTEM"@,
        "--add-opens"@,
        "java.base/java.util=ALL-UNNAMED"@,
        "--add-opens"@,
        "java.base/java.lang=ALL-UNNAMED"@,
    ];
    let tail = seq!["-jar"@, launcher_jar, "-data"@, data_path];
    let xml: Seq<Seq<char>> = if major >= XML_FLAGS_JAVA_MAJOR {
        seq!["-Djdk.xml.maxGeneralEntitySizeLimit=0"@, "-Djdk.xml.totalEntitySizeLimit=0"@]
    } else {
        Seq::empty()
    };
    head + jvm_args + tail + xml
}

/// Assembles the language server's launch arguments.
pub fn build_jdtls_launch_args(
    java_executable: &str,
    shared_config_path: &str,
    launcher_jar: &str,
    data_path: &str,
    jvm_args: &Vec<String>,
    java_major_version: u32,
) -> (r: Vec<String>)
    ensures
        r.deep_view() == spec_launch_args(
            java_executable@,
            shared_config_path@,
            launcher_jar@,
            data_path@,
            jvm_args.deep_view(),
            java_major_version,
        ),
{
    let ghost head_spec: Seq<Seq<char>> = seq![
        java_executable@,
        "-Declipse.application=org.eclipse.jdt.ls.core.id1"@,
        "-Dosgi.bundles.defaultStartLevel=4"@,
        "-Declipse.product=org.eclipse.jdt.ls.core.product"@,
        "-Dosgi.checkConfiguration=true"@,
        "-Dosgi.sharedConfiguration.area="@ + shared_config_path@,
        "-Dosgi.sharedConfiguration.area.readOnly=true"@,
        "-Dosgi.configuration.cascaded=true"@,
        "-Xms1G"@,
        "--add-modules=ALL-SYSTEM"@,
        "--add-opens"@,
        "java.base/java.util=ALL-UNNAMED"@,
        "--add-opens"@,
        "java.base/java.lang=ALL-UNNAMED"@,
    ];
    let mut args: Vec<String> = Vec::new();
    args.push(java_executable.to_owned());
    args.push("-Declipse.application=org.eclipse.jdt.ls.core.id1".to_owned());
    args.push("-Dosgi.bundles.defaultStartLevel=4".to_owned());
    args.push("-Declipse.product=org.eclipse.jdt.ls.core.product".to_owned());
    args.push("-Dosgi.checkConfiguration=true".to_owned());
    let mut shared = "-Dosgi.sharedConfiguration.area=".to_owned();
    shared.append(shared_config_path);
    args.push(shared);
    args.push("-Dosgi.sharedConfiguration.area.readOnly=true".to_owned());
    args.push("-Dosgi.configuration.cascaded=true".to_owned());
    args.push("-Xms1G".to_owned());
    args.push("--add-modules=ALL-SYSTEM".to_owned());
    args.push("--add-opens".to_owned());
    args.push("java.base/java.util=ALL-UNNAMED".to_owned());
    args.push("--add-opens".to_owned());
    args.push("java.base/java.lang=ALL-UNNAMED".to_owned());
    proof {
        assert(args.deep_view() =~= head_spec);
        assert(head_spec + jvm_args.deep_view().subrange(0, 0) =~= head_spec);
    }
    let n = jvm_args.len();
    let mut i: usize = 0;
    while i < n
        invariant
            n == jvm_args@.len(),
            0 <= i <= n,
            args.deep_view() == head_spec + jvm_args.deep_view().subrange(0, i as int),
        decreases n - i,
    {
        let ghost prev = args.deep_view();
        args.push(jvm_args[i].clone());
        proof {
            assert(args.deep_view() =~= prev.push(jvm_args.deep_view()[i as int])) by {
                assert(forall|k: int|
                    0 <= k < args@.len() ==> #[trigger] args.deep_view()[k] == args@[k]@);
            }
            assert(head_spec + jvm_args.deep_view().subrange(0, i + 1) =~= (head_spec
                + jvm_args.deep_view().subrange(0, i as int)).push(jvm_args.deep_view()[i as int]));
        }
        i = i + 1;
    }
    proof {
        assert(jvm_args.deep_view().subrange(0, n as int) =~= jvm_args.deep_view());
    }
    let ghost mid = args.deep_view();
    args.push("-jar".to_owned());
    args.push(launcher_jar.to_owned());
    args.push("-data".to_owned());
    args.push(data_path.to_owned());
    if java_major_version >= XML_FLAGS_JAVA_MAJOR {
        args.push("-Djdk.xml.maxGeneralEntitySizeLimit=0".to_owned());
        args.push("-Djdk.xml.totalEntitySizeLimit=0".to_owned());
        proof {
            assert(args.deep_view() =~= spec_launch_args(
                java_executable@,
                shared_config_path@,
                launcher_jar@,
                data_path@,
                jvm_args.deep_view(),
                java_major_version,
            ));
        }
    } else {
        proof {
            assert(args.deep_view() =~= spec_launch_args(
                java_executable@,
                shared_config_path@,
                launcher_jar@,
                data_path@,
                jvm_args.deep_view(),
                java_major_version,
            ));
        }
    }
    args
}

} // verus!
