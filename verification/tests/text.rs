//! Tests for the string, hex and JSON foundations and the settings
//! readers.

use java_bridge::config::{
    expand_home_path, get_java_home, get_update_check_mode, is_java_autodownload,
    is_lombok_enabled, settings_from_init_options, CheckUpdates,
};
use java_bridge::debugger::{debugger_install_dir, fork_plugin_url, fork_plugin_version};
use java_bridge::digest::{bytes_to_hex, get_sha1_hex, string_to_hex};
use java_bridge::error::BridgeError;
use java_bridge::json::{obj_get, to_json_string, Json};
use java_bridge::lsp::{
    main_class_entries_from, parse_lsp_response, port_from_result, resolve_class_path_body,
    resolve_main_class_body, start_session_body, string_lists_from, LspClient, LspFailure,
};
use java_bridge::platform::Os;
use java_bridge::strutil::{
    ascii_lower, contains_sub, ends_with, find_sub, path_join, replace, starts_with, str_eq,
    trim_ascii, u32_to_decimal,
};

#[test]
fn replace_rewrites_every_occurrence() {
    assert_eq!(replace("a~b~", "~", "/home/u"), "a/home/ub/home/u");
    assert_eq!(replace("no match", "~", "x"), "no match");
    assert_eq!(
        replace("${workspaceFolder}/src", "${workspaceFolder}", "/w"),
        "/w/src"
    );
}

#[test]
fn basic_string_predicates() {
    assert!(str_eq("abc", "abc"));
    assert!(!str_eq("abc", "abd"));
    assert!(starts_with("org.eclipse.equinox.launcher_1.jar", "org.eclipse.equinox.launcher_"));
    assert!(ends_with("x.jar", ".jar"));
    assert!(!ends_with("jar", ".jar"));
    assert_eq!(find_sub("abcabc", "bc"), Some(1));
    assert_eq!(find_sub("abc", "zz"), None);
    assert!(contains_sub("amazon-corretto-21", "corretto"));
    assert_eq!(trim_ascii("  x y\t\n"), "x y");
    assert_eq!(ascii_lower("OnCe"), "once");
    assert_eq!(u32_to_decimal(0), "0");
    assert_eq!(u32_to_decimal(5005), "5005");
    assert_eq!(u32_to_decimal(4294967295), "4294967295");
}

#[test]
fn path_join_handles_separators() {
    assert_eq!(path_join("a", "b"), "a/b");
    assert_eq!(path_join("a/", "b"), "a/b");
    assert_eq!(path_join("a", "/b"), "/b");
    assert_eq!(path_join("", "b"), "b");
}

#[test]
fn hex_encodings_agree() {
    assert_eq!(string_to_hex("abc"), "616263");
    assert_eq!(bytes_to_hex(&vec![0x00u8, 0x0f, 0xff]), "000fff");
    // Digest of the empty input, a fixed reference value.
    assert_eq!(get_sha1_hex(""), "da39a3ee5e6b4b0d3255bfef95601890afd80709");
    assert_eq!(
        get_sha1_hex("hello world"),
        "2aae6c35c94fcfb415dbe95f408b9ce91ee846ed"
    );
}

#[test]
fn port_file_is_named_after_the_workspace() {
    let client = LspClient::new("/w".to_string());
    assert_eq!(client.port_file_path(), format!("proxy/{}", string_to_hex("/w")));
}

#[test]
fn json_serializer_escapes_like_the_wire_format() {
    let j = Json::Obj(vec![
        ("s".to_string(), Json::Str("a\"b\\c\nd\u{1}".to_string())),
        ("n".to_string(), Json::Num("1.5".to_string())),
        ("b".to_string(), Json::Bool(true)),
        ("z".to_string(), Json::Null),
        (
            "arr".to_string(),
            Json::Arr(vec![Json::Num("1".to_string()), Json::Str("x".to_string())]),
        ),
    ]);
    assert_eq!(
        to_json_string(&j),
        "{\"s\":\"a\\\"b\\\\c\\nd\\u0001\",\"n\":1.5,\"b\":true,\"z\":null,\"arr\":[1,\"x\"]}"
    );
}

#[test]
fn object_lookup_finds_the_first_member() {
    let j = Json::Obj(vec![
        ("a".to_string(), Json::Num("1".to_string())),
        ("a".to_string(), Json::Num("2".to_string())),
    ]);
    match obj_get(&j, "a") {
        Some(Json::Num(n)) => assert_eq!(n, "1"),
        _ => panic!("lookup failed"),
    }
    assert!(obj_get(&j, "b").is_none());
    assert!(obj_get(&Json::Null, "a").is_none());
}

#[test]
fn request_bodies_have_the_wire_shape() {
    let body = resolve_main_class_body(&vec!["com.a.Main".to_string()]);
    assert_eq!(
        body,
        "{\"method\":\"workspace/executeCommand\",\"params\":{\"command\":\"vscode.java.resolveMainClass\",\"arguments\":[\"com.a.Main\"]}}"
    );
    let body = resolve_class_path_body(&vec![
        Some("com.a.Main".to_string()),
        None,
        Some("test".to_string()),
    ]);
    assert_eq!(
        body,
        "{\"method\":\"workspace/executeCommand\",\"params\":{\"command\":\"vscode.java.resolveClasspath\",\"arguments\":[\"com.a.Main\",null,\"test\"]}}"
    );
    assert_eq!(
        start_session_body(),
        "{\"method\":\"workspace/executeCommand\",\"params\":{\"command\":\"vscode.java.startDebugSession\"}}"
    );
}

#[test]
fn responses_split_into_result_and_error() {
    let ok = Json::Obj(vec![("result".to_string(), Json::Num("5005".to_string()))]);
    let v = parse_lsp_response(&ok).unwrap();
    assert_eq!(port_from_result(&v), Some(5005));
    let err = Json::Obj(vec![(
        "error".to_string(),
        Json::Obj(vec![
            ("code".to_string(), Json::Num("-32601".to_string())),
            ("message".to_string(), Json::Str("no such method".to_string())),
            ("data".to_string(), Json::Null),
        ]),
    )]);
    match parse_lsp_response(&err) {
        Err(LspFailure::Remote(e)) => {
            assert_eq!(e.code, "-32601");
            assert_eq!(e.message, "no such method");
        },
        _ => panic!("expected a remote error"),
    }
    let odd = Json::Obj(vec![("weird".to_string(), Json::Null)]);
    assert!(matches!(parse_lsp_response(&odd), Err(LspFailure::Malformed)));
    assert_eq!(port_from_result(&Json::Num("70000".to_string())), None);
    assert_eq!(port_from_result(&Json::Str("5005".to_string())), None);
}

#[test]
fn collaborator_payloads_are_decoded() {
    let lists = Json::Arr(vec![
        Json::Arr(vec![Json::Str("/a.jar".to_string())]),
        Json::Arr(vec![Json::Str("/b.jar".to_string()), Json::Str("/c.jar".to_string())]),
    ]);
    let v = string_lists_from(&lists).unwrap();
    assert_eq!(
        v,
        vec![
            vec!["/a.jar".to_string()],
            vec!["/b.jar".to_string(), "/c.jar".to_string()]
        ]
    );
    let entries = Json::Arr(vec![Json::Obj(vec![
        ("mainClass".to_string(), Json::Str("com.a.Main".to_string())),
        ("projectName".to_string(), Json::Str("a".to_string())),
        ("filePath".to_string(), Json::Str("/src/Main.java".to_string())),
    ])]);
    let es = main_class_entries_from(&entries).unwrap();
    assert_eq!(es.len(), 1);
    assert_eq!(es[0].main_class, "com.a.Main");
    assert_eq!(es[0].project_name, "a");
    assert_eq!(es[0].file_path, "/src/Main.java");
    let bad = Json::Arr(vec![Json::Obj(vec![(
        "mainClass".to_string(),
        Json::Str("com.a.Main".to_string()),
    )])]);
    assert!(matches!(main_class_entries_from(&bad), Err(LspFailure::Malformed)));
}

#[test]
fn update_mode_reads_case_insensitively() {
    let cfg = Some(Json::Obj(vec![(
        "check_updates".to_string(),
        Json::Str("ONCE".to_string()),
    )]));
    assert_eq!(get_update_check_mode(&cfg), CheckUpdates::Once);
    let cfg = Some(Json::Obj(vec![(
        "check_updates".to_string(),
        Json::Str("never".to_string()),
    )]));
    assert_eq!(get_update_check_mode(&cfg), CheckUpdates::Never);
    let cfg = Some(Json::Obj(vec![(
        "check_updates".to_string(),
        Json::Str("weekly".to_string()),
    )]));
    assert_eq!(get_update_check_mode(&cfg), CheckUpdates::Always);
    assert_eq!(get_update_check_mode(&None), CheckUpdates::Always);
}

#[test]
fn autodownload_defaults_to_off() {
    assert!(!is_java_autodownload(&None));
    let on = Some(Json::Obj(vec![(
        "jdk_auto_download".to_string(),
        Json::Bool(true),
    )]));
    assert!(is_java_autodownload(&on));
    let odd = Some(Json::Obj(vec![(
        "jdk_auto_download".to_string(),
        Json::Str("yes".to_string()),
    )]));
    assert!(!is_java_autodownload(&odd));
}

#[test]
fn lombok_support_defaults_to_on_with_legacy_alias() {
    assert!(is_lombok_enabled(&None));
    let off = Some(Json::Obj(vec![(
        "lombok_support".to_string(),
        Json::Bool(false),
    )]));
    assert!(!is_lombok_enabled(&off));
    let legacy_off = Some(Json::Obj(vec![(
        "java".to_string(),
        Json::Obj(vec![(
            "jdt".to_string(),
            Json::Obj(vec![(
                "ls".to_string(),
                Json::Obj(vec![(
                    "lombokSupport".to_string(),
                    Json::Obj(vec![("enabled".to_string(), Json::Bool(false))]),
                )]),
            )]),
        )]),
    )]));
    assert!(!is_lombok_enabled(&legacy_off));
}

#[test]
fn java_home_expands_and_falls_back_to_the_environment() {
    let cfg = Some(Json::Obj(vec![(
        "java_home".to_string(),
        Json::Str("~/jdk".to_string()),
    )]));
    let r = get_java_home(&cfg, Os::Linux, Some("/home/u".to_string()), None);
    assert_eq!(r, Some("/home/u/jdk".to_string()));
    // No home directory known: the setting cannot expand, the environment wins.
    let r = get_java_home(&cfg, Os::Linux, None, Some("/opt/jdk".to_string()));
    assert_eq!(r, Some("/opt/jdk".to_string()));
    // An empty environment value does not count.
    let r = get_java_home(&None, Os::Linux, None, Some("".to_string()));
    assert_eq!(r, None);
    // Legacy alias.
    let legacy = Some(Json::Obj(vec![(
        "java".to_string(),
        Json::Obj(vec![("home".to_string(), Json::Str("/j".to_string()))]),
    )]));
    let r = get_java_home(&legacy, Os::Windows, None, None);
    assert_eq!(r, Some("/j".to_string()));
    assert_eq!(
        expand_home_path(Os::Windows, None, "~/x").unwrap(),
        "~/x"
    );
    assert_eq!(
        expand_home_path(Os::Linux, None, "~/x").unwrap_err(),
        BridgeError::ExpandHome
    );
}

#[test]
fn settings_fall_back_to_initialization_options() {
    let options = Json::Obj(vec![(
        "settings".to_string(),
        Json::Obj(vec![("a".to_string(), Json::Bool(true))]),
    )]);
    let s = settings_from_init_options(&options).unwrap();
    assert_eq!(to_json_string(&s), "{\"a\":true}");
    assert!(settings_from_init_options(&Json::Obj(vec![])).is_none());
}

#[test]
fn small_builders_have_exact_shapes() {
    assert_eq!(java_bridge::lsp::proxy_url(8123), "http://localhost:8123");
    assert_eq!(java_bridge::versions::version_string(1, 40, 0), "1.40.0");
    assert_eq!(
        java_bridge::policy::checked_marker_path("jdk"),
        "jdk/.checked-once"
    );
    assert_eq!(
        java_bridge::platform::get_shared_config_path("/ext/jdtls/v1", Os::Linux),
        "/ext/jdtls/v1/config_linux"
    );
    assert_eq!(replace("abc", "", "X"), "abc");
    assert_eq!(CheckUpdates::default(), CheckUpdates::Always);
}

#[test]
fn fork_release_constants() {
    assert_eq!(debugger_install_dir(), "debugger");
    assert_eq!(fork_plugin_version(), "0.53.2");
    assert_eq!(
        fork_plugin_url(),
        "https://github.com/zed-industries/java-debug/releases/download/0.53.2/com.microsoft.java.debug.plugin-0.53.2.jar"
    );
}
