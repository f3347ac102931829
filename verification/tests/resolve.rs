//! Tests for version discovery, update policy, artifact selection and
//! launch planning.

use java_bridge::artifact::{
    build_corretto_url, get_jdk_bin_path, is_jar_name, latest_entry, latest_jar_entry,
    lombok_download_url, lombok_jar_name, pick_extracted_dir, plugin_download_url,
    plugin_jar_name, prune_targets, server_download_url, server_latest_txt_url,
};
use java_bridge::config::CheckUpdates;
use java_bridge::error::BridgeError;
use java_bridge::launch::{
    build_jdtls_launch_args, get_jdtls_data_path, javaagent_arg, jvm_arg_flag,
    plan_java_executable, proxy_args, runtime_version_gate, select_equinox_launcher,
    JavaExecSource, RuntimeGate,
};
use java_bridge::platform::{Arch, Os};
use java_bridge::policy::should_use_local_or_download;
use java_bridge::versions::{
    build_directory_of, extract_latest_version, get_latest_versions_from_tag,
    max_version_in_text, parse_major_version, tag_at,
};
use java_bridge::json::Json;

#[test]
fn never_mode_requires_local_install() {
    let r = should_use_local_or_download(CheckUpdates::Never, None, false);
    assert_eq!(r.unwrap_err(), BridgeError::NoLocalInstall);
    let r = should_use_local_or_download(CheckUpdates::Never, Some("jdtls/v1".to_string()), true);
    assert_eq!(r.unwrap(), Some("jdtls/v1".to_string()));
}

#[test]
fn once_mode_checks_exactly_once() {
    let first = should_use_local_or_download(CheckUpdates::Once, None, false);
    assert_eq!(first.unwrap(), None);
    let second = should_use_local_or_download(CheckUpdates::Once, None, true);
    assert_eq!(second.unwrap_err(), BridgeError::AlreadyCheckedOnce);
    let with_local =
        should_use_local_or_download(CheckUpdates::Once, Some("lombok/x.jar".to_string()), true);
    assert_eq!(with_local.unwrap(), Some("lombok/x.jar".to_string()));
}

#[test]
fn always_mode_always_downloads() {
    let r = should_use_local_or_download(CheckUpdates::Always, Some("x".to_string()), true);
    assert_eq!(r.unwrap(), None);
}

#[test]
fn version_tie_break_is_numeric() {
    let text = "<a>1.9.0</a> <a>1.10.0</a> <a>1.2.5</a>";
    assert_eq!(max_version_in_text(text), Some((1, 10, 0)));
}

#[test]
fn version_scan_ignores_malformed_entries() {
    let text = "x.y.z 0.1.banana 2.3.4, 99999999999.1.2, 1..2 ";
    assert_eq!(max_version_in_text(text), Some((2, 3, 4)));
    assert_eq!(max_version_in_text("no versions here"), None);
}

#[test]
fn version_scan_quirks_match_the_listing_format() {
    // A four-component run never yields a triple.
    assert_eq!(max_version_in_text("5.1.2.3 "), None);
    // A triple at the very end of the text is not closed.
    assert_eq!(max_version_in_text("1.2.3"), None);
    assert_eq!(max_version_in_text("1.2.3 "), Some((1, 2, 3)));
}

#[test]
fn major_version_is_parsed_from_runtime_output() {
    let out = "openjdk version \"21.0.1\" 2023-10-17\nOpenJDK Runtime Environment";
    assert_eq!(parse_major_version(out), Some(21));
    let legacy = "java version \"9\"";
    assert_eq!(parse_major_version(legacy), Some(9));
    assert_eq!(parse_major_version("no version string"), None);
}

#[test]
fn latest_version_is_read_from_metadata() {
    let xml = "<metadata><latest> 0.53.1 </latest><x/></metadata>";
    assert_eq!(extract_latest_version(xml).unwrap(), "0.53.1");
    assert_eq!(
        extract_latest_version("<nope/>").unwrap_err(),
        BridgeError::MalformedMetadata
    );
}

#[test]
fn build_directory_strips_archive_suffix() {
    assert_eq!(
        build_directory_of(" jdt-language-server-1.40.0-2024.tar.gz\n"),
        "jdt-language-server-1.40.0-2024."
    );
}

#[test]
fn tags_yield_latest_and_second() {
    let tags = Json::Arr(vec![
        Json::Obj(vec![(
            "name".to_string(),
            Json::Str("v1.18.30".to_string()),
        )]),
        Json::Obj(vec![(
            "name".to_string(),
            Json::Str("v1.18.28".to_string()),
        )]),
    ]);
    let (latest, second) = get_latest_versions_from_tag(&tags).unwrap();
    assert_eq!(latest, "1.18.30");
    assert_eq!(second, Some("1.18.28".to_string()));
    assert_eq!(tag_at(&tags, 5), None);
    let empty = Json::Arr(vec![]);
    assert_eq!(
        get_latest_versions_from_tag(&empty).unwrap_err(),
        BridgeError::MalformedTags
    );
}

#[test]
fn prune_keeps_only_the_installed_version() {
    let entries = vec!["1.9.0".to_string(), "2.0.0".to_string()];
    assert_eq!(prune_targets(&entries, "2.0.0"), vec!["1.9.0".to_string()]);
    let only = vec!["2.0.0".to_string()];
    assert_eq!(prune_targets(&only, "2.0.0"), Vec::<String>::new());
    let absent: Vec<String> = Vec::new();
    assert_eq!(prune_targets(&absent, "2.0.0"), Vec::<String>::new());
}

#[test]
fn newest_entry_wins_and_ties_take_the_later() {
    let entries = vec![
        ("a".to_string(), 5u64),
        ("b".to_string(), 9u64),
        ("c".to_string(), 9u64),
        ("d".to_string(), 2u64),
    ];
    assert_eq!(latest_entry(&entries), Some("c".to_string()));
    assert_eq!(latest_entry(&Vec::new()), None);
}

#[test]
fn jar_selection_ignores_other_files() {
    let entries = vec![
        ("readme.txt".to_string(), 50u64),
        ("lombok-1.18.30.jar".to_string(), 10u64),
        ("lombok-1.18.28.jar".to_string(), 5u64),
    ];
    assert_eq!(latest_jar_entry(&entries), Some("lombok-1.18.30.jar".to_string()));
    assert!(is_jar_name("a.jar"));
    assert!(!is_jar_name(".jar"));
    assert!(!is_jar_name("a.zip"));
}

#[test]
fn artifact_names_and_urls() {
    assert_eq!(lombok_jar_name("1.18.30"), "lombok-1.18.30.jar");
    assert_eq!(
        lombok_download_url("lombok-1.18.30.jar"),
        "https://projectlombok.org/downloads/lombok-1.18.30.jar"
    );
    assert_eq!(
        plugin_jar_name("0.53.2"),
        "com.microsoft.java.debug.plugin-0.53.2.jar"
    );
    assert_eq!(
        plugin_download_url("0.53.2", "com.microsoft.java.debug.plugin-0.53.2.jar"),
        "https://repo1.maven.org/maven2/com/microsoft/java/com.microsoft.java.debug.plugin/0.53.2/com.microsoft.java.debug.plugin-0.53.2.jar"
    );
    assert_eq!(
        server_latest_txt_url("1.40.0"),
        "https://download.eclipse.org/jdtls/milestones/1.40.0/latest.txt"
    );
    assert_eq!(
        server_download_url("1.40.0", "jdt-language-server-1.40.0.tar.gz"),
        "https://www.eclipse.org/downloads/download.php?file=/jdtls/milestones/1.40.0/jdt-language-server-1.40.0.tar.gz"
    );
}

#[test]
fn corretto_url_substitutes_platform_and_arch() {
    assert_eq!(
        build_corretto_url("21.0.1.12.1", Os::Linux, Arch::X8664),
        "https://corretto.aws/downloads/resources/21.0.1.12.1/amazon-corretto-21.0.1.12.1-linux-x64.tar.gz"
    );
    assert_eq!(
        build_corretto_url("21.0.1.12.1", Os::Windows, Arch::Aarch64),
        "https://corretto.aws/downloads/resources/21.0.1.12.1/amazon-corretto-21.0.1.12.1-windows-aarch64-jdk.zip"
    );
}

#[test]
fn jdk_bin_path_depends_on_platform() {
    assert_eq!(
        get_jdk_bin_path("jdk/21", "amazon-corretto-21", Os::Linux),
        "jdk/21/amazon-corretto-21/bin"
    );
    assert_eq!(
        get_jdk_bin_path("jdk/21", "amazon-corretto-21", Os::Mac),
        "jdk/21/amazon-corretto-21/Contents/Home/bin"
    );
}

#[test]
fn extracted_runtime_directory_is_recognised() {
    let entries = vec!["notes".to_string(), "amazon-corretto-21".to_string()];
    assert_eq!(pick_extracted_dir(&entries).unwrap(), "amazon-corretto-21");
    let jdk = vec!["jdk-21".to_string()];
    assert_eq!(pick_extracted_dir(&jdk).unwrap(), "jdk-21");
    let none: Vec<String> = vec!["misc".to_string()];
    assert_eq!(
        pick_extracted_dir(&none).unwrap_err(),
        BridgeError::NoExtractedRuntime
    );
}

#[test]
fn runtime_gate_enforces_minimum_major() {
    assert_eq!(runtime_version_gate(21, false), RuntimeGate::UseCurrent);
    assert_eq!(runtime_version_gate(17, true), RuntimeGate::FetchCompliant);
    assert_eq!(runtime_version_gate(17, false), RuntimeGate::Reject);
}

#[test]
fn java_executable_preference_order() {
    let r = plan_java_executable(Some("/opt/jdk".to_string()), None, false, Os::Linux);
    assert!(matches!(r, JavaExecSource::ConfiguredHome(p) if p == "/opt/jdk/bin/java"));
    let r = plan_java_executable(
        Some("/opt/jdk".to_string()),
        Some("/usr/bin/java".to_string()),
        false,
        Os::Windows,
    );
    assert!(matches!(r, JavaExecSource::ConfiguredHome(p) if p == "/opt/jdk/bin/java.exe"));
    let r = plan_java_executable(None, Some("/usr/bin/java".to_string()), false, Os::Linux);
    assert!(matches!(r, JavaExecSource::SearchPath(p) if p == "/usr/bin/java"));
    let r = plan_java_executable(None, None, true, Os::Linux);
    assert!(matches!(r, JavaExecSource::AutoDownload));
    let r = plan_java_executable(None, None, false, Os::Linux);
    assert!(matches!(r, JavaExecSource::NotFound));
}

#[test]
fn equinox_launcher_prefers_the_exact_name() {
    let entries = vec![
        "org.eclipse.equinox.launcher_1.6.400.jar".to_string(),
        "org.eclipse.equinox.launcher.jar".to_string(),
    ];
    assert_eq!(
        select_equinox_launcher(&entries).unwrap(),
        "org.eclipse.equinox.launcher.jar"
    );
    let glob_only = vec![
        "other.jar".to_string(),
        "org.eclipse.equinox.launcher_1.6.400.jar".to_string(),
        "org.eclipse.equinox.launcher_9.9.9.jar".to_string(),
    ];
    assert_eq!(
        select_equinox_launcher(&glob_only).unwrap(),
        "org.eclipse.equinox.launcher_1.6.400.jar"
    );
    let nothing = vec!["other.jar".to_string()];
    assert_eq!(
        select_equinox_launcher(&nothing).unwrap_err(),
        BridgeError::NoEquinoxLauncher
    );
}

#[test]
fn launch_args_are_assembled_in_order() {
    let jvm = vec!["-javaagent:/ext/lombok/lombok-1.18.30.jar".to_string()];
    let args = build_jdtls_launch_args(
        "/usr/bin/java",
        "/ext/jdtls/config_linux",
        "/ext/jdtls/plugins/org.eclipse.equinox.launcher.jar",
        "/home/u/.cache/jdtls-abc",
        &jvm,
        24,
    );
    let expected = vec![
        "/usr/bin/java",
        "-Declipse.application=org.eclipse.jdt.ls.core.id1",
        "-Dosgi.bundles.defaultStartLevel=4",
        "-Declipse.product=org.eclipse.jdt.ls.core.product",
        "-Dosgi.checkConfiguration=true",
        "-Dosgi.sharedConfiguration.area=/ext/jdtls/config_linux",
        "-Dosgi.sharedConfiguration.area.readOnly=true",
        "-Dosgi.configuration.cascaded=true",
        "-Xms1G",
        "--add-modules=ALL-SYSTEM",
        "--add-opens",
        "java.base/java.util=ALL-UNNAMED",
        "--add-opens",
        "java.base/java.lang=ALL-UNNAMED",
        "-javaagent:/ext/lombok/lombok-1.18.30.jar",
        "-jar",
        "/ext/jdtls/plugins/org.eclipse.equinox.launcher.jar",
        "-data",
        "/home/u/.cache/jdtls-abc",
        "-Djdk.xml.maxGeneralEntitySizeLimit=0",
        "-Djdk.xml.totalEntitySizeLimit=0",
    ];
    assert_eq!(args, expected.iter().map(|s| s.to_string()).collect::<Vec<_>>());
    let args_old = build_jdtls_launch_args("/usr/bin/java", "c", "j", "d", &Vec::new(), 21);
    assert_eq!(args_old.len(), 18);
    assert!(!args_old.contains(&"-Djdk.xml.maxGeneralEntitySizeLimit=0".to_string()));
}

#[test]
fn agent_and_proxy_argument_shapes() {
    assert_eq!(javaagent_arg("/a/l.jar"), "-javaagent:/a/l.jar");
    assert_eq!(
        jvm_arg_flag("-javaagent:/a/l.jar"),
        "--jvm-arg=-javaagent:/a/l.jar"
    );
    assert_eq!(
        proxy_args("proxy-code", "/ext"),
        vec![
            "--input-type=module".to_string(),
            "-e".to_string(),
            "proxy-code".to_string(),
            "/ext".to_string()
        ]
    );
}

#[test]
fn data_path_is_rooted_in_the_platform_cache() {
    let digest = java_bridge::digest::get_sha1_hex("/home/u/proj");
    let expected = format!("/home/u/.cache/jdtls-{}", digest);
    assert_eq!(
        get_jdtls_data_path(Os::Linux, Some("/home/u"), None, "/ext", "/home/u/proj"),
        expected
    );
    let mac = get_jdtls_data_path(Os::Mac, Some("/Users/u"), None, "/ext", "/home/u/proj");
    assert_eq!(mac, format!("/Users/u/Library/Caches/jdtls-{}", digest));
    let fallback = get_jdtls_data_path(Os::Linux, None, None, "/ext", "/home/u/proj");
    assert_eq!(fallback, format!("/ext/caches/jdtls-{}", digest));
}
