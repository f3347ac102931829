//! Tests for the debug-configuration injector and bundle injection.

use java_bridge::debugger::{
    attach_config_json, dap_request_kind, inject_launch_config, launch_config_from_json,
    merge_class_paths, resolve_entry_point, DapRequestKind, Debugger, DebugLaunchConfig,
};
use java_bridge::error::BridgeError;
use java_bridge::json::{to_json_string, Json};
use java_bridge::lsp::{LspClient, MainClassEntry};
use java_bridge::debugger::{is_passthrough_request, scope_argument};

fn empty_config(request: &str) -> DebugLaunchConfig {
    DebugLaunchConfig {
        request: request.to_string(),
        project_name: None,
        main_class: None,
        args: None,
        vm_args: None,
        encoding: None,
        class_paths: None,
        module_paths: None,
        cwd: None,
        env: None,
        stop_on_entry: None,
        no_debug: None,
        console: None,
        shorten_command_line: None,
        launcher_script: None,
        java_exec: None,
    }
}

fn fresh_debugger() -> Debugger {
    Debugger::new(LspClient::new("/home/u/proj".to_string()))
}

fn bundles_of(j: &Json) -> Vec<String> {
    let Json::Obj(kvs) = j else {
        panic!("expected an object");
    };
    for (k, v) in kvs {
        if k == "bundles" {
            let Json::Arr(items) = v else {
                panic!("bundles is not an array");
            };
            return items
                .iter()
                .map(|it| {
                    let Json::Str(s) = it else {
                        panic!("bundle entry is not a string");
                    };
                    s.clone()
                })
                .collect();
        }
    }
    panic!("no bundles member");
}

#[test]
fn bundle_injection_is_idempotent() {
    let mut d = fresh_debugger();
    d.set_plugin_path("debugger/plugin.jar".to_string());
    let once = d.inject_plugin_into_options(None, "/ext").unwrap();
    let twice = d
        .inject_plugin_into_options(Some(java_bridge::json::json_clone(&once)), "/ext")
        .unwrap();
    assert_eq!(to_json_string(&once), to_json_string(&twice));
    let b = bundles_of(&twice);
    assert_eq!(b, vec!["/ext/debugger/plugin.jar".to_string()]);
}

#[test]
fn bundle_injection_counts_path_once() {
    let mut d = fresh_debugger();
    d.set_plugin_path("debugger/plugin.jar".to_string());
    let options = Json::Obj(vec![
        ("other".to_string(), Json::Num("3".to_string())),
        (
            "bundles".to_string(),
            Json::Arr(vec![Json::Str("x.jar".to_string())]),
        ),
    ]);
    let out = d.inject_plugin_into_options(Some(options), "/ext").unwrap();
    let b = bundles_of(&out);
    assert_eq!(
        b,
        vec!["x.jar".to_string(), "/ext/debugger/plugin.jar".to_string()]
    );
    let again = d.inject_plugin_into_options(Some(out), "/ext").unwrap();
    let b2 = bundles_of(&again);
    let hits = b2
        .iter()
        .filter(|s| s.as_str() == "/ext/debugger/plugin.jar")
        .count();
    assert_eq!(hits, 1);
    assert_eq!(
        to_json_string(&again),
        "{\"other\":3,\"bundles\":[\"x.jar\",\"/ext/debugger/plugin.jar\"]}"
    );
}

#[test]
fn bundle_injection_rejects_non_array_bundles() {
    let mut d = fresh_debugger();
    d.set_plugin_path("debugger/plugin.jar".to_string());
    let options = Json::Obj(vec![(
        "bundles".to_string(),
        Json::Str("oops".to_string()),
    )]);
    let r = d.inject_plugin_into_options(Some(options), "/ext");
    assert_eq!(r.unwrap_err(), BridgeError::InvalidInitOptions);
}

#[test]
fn bundle_injection_requires_resolved_plugin() {
    let d = fresh_debugger();
    let r = d.inject_plugin_into_options(None, "/ext");
    assert_eq!(r.unwrap_err(), BridgeError::DebuggerNotLoaded);
}

#[test]
fn scope_marker_removed_and_duplicates_dropped() {
    let cps = vec!["$Test".to_string()];
    let resolved = vec![vec![
        "/cp/a.jar".to_string(),
        "/cp/b.jar".to_string(),
        "/cp/a.jar".to_string(),
    ]];
    let merged = merge_class_paths(&cps, &resolved);
    assert_eq!(merged, vec!["/cp/a.jar".to_string(), "/cp/b.jar".to_string()]);
    assert!(!merged.iter().any(|s| s == "$Test"));
}

#[test]
fn workspace_folder_placeholder_is_substituted() {
    let mut c = empty_config("launch");
    c.cwd = Some("${workspaceFolder}/src".to_string());
    let entries: Vec<MainClassEntry> = Vec::new();
    let resolved: Vec<Vec<String>> = Vec::new();
    let out = inject_launch_config(c, &entries, &resolved, "/home/u/proj").unwrap();
    assert_eq!(
        out,
        "{\"request\":\"launch\",\"classPaths\":[],\"cwd\":\"/home/u/proj/src\"}"
    );
}

#[test]
fn missing_cwd_defaults_to_workspace_root() {
    let c = empty_config("launch");
    let entries: Vec<MainClassEntry> = Vec::new();
    let resolved: Vec<Vec<String>> = Vec::new();
    let out = inject_launch_config(c, &entries, &resolved, "/home/u/proj").unwrap();
    assert_eq!(
        out,
        "{\"request\":\"launch\",\"classPaths\":[],\"cwd\":\"/home/u/proj\"}"
    );
}

#[test]
fn scope_resolution_merges_and_orders_entries() {
    let mut c = empty_config("launch");
    c.class_paths = Some(vec!["$Runtime".to_string(), "/x.jar".to_string()]);
    c.main_class = Some("com.a.Main".to_string());
    let entries = vec![MainClassEntry {
        main_class: "com.a.Main".to_string(),
        project_name: "a".to_string(),
        file_path: "/a".to_string(),
    }];
    let resolved = vec![vec!["/y.jar".to_string(), "/x.jar".to_string()]];
    let out = inject_launch_config(c, &entries, &resolved, "/w").unwrap();
    assert_eq!(
        out,
        "{\"request\":\"launch\",\"projectName\":\"a\",\"mainClass\":\"com.a.Main\",\"classPaths\":[\"/x.jar\",\"/y.jar\"],\"cwd\":\"/w\"}"
    );
}

#[test]
fn scope_argument_priority_is_test_auto_runtime() {
    let both = vec!["$Runtime".to_string(), "$Test".to_string()];
    assert_eq!(scope_argument(&both), Some("test".to_string()));
    let auto = vec!["$Auto".to_string(), "$Runtime".to_string()];
    assert_eq!(scope_argument(&auto), None);
    let runtime = vec!["$Runtime".to_string()];
    assert_eq!(scope_argument(&runtime), Some("runtime".to_string()));
    let none = vec!["/x.jar".to_string()];
    assert_eq!(scope_argument(&none), None);
}

#[test]
fn non_launch_requests_pass_through() {
    let attach = Json::Obj(vec![(
        "request".to_string(),
        Json::Str("attach".to_string()),
    )]);
    assert!(is_passthrough_request(&attach));
    let launch = Json::Obj(vec![(
        "request".to_string(),
        Json::Str("launch".to_string()),
    )]);
    assert!(!is_passthrough_request(&launch));
    let missing = Json::Obj(vec![]);
    assert!(!is_passthrough_request(&missing));
}

#[test]
fn ambiguous_entry_point_is_fatal() {
    let entries = vec![
        MainClassEntry {
            main_class: "com.a.Main".to_string(),
            project_name: "a".to_string(),
            file_path: "/a".to_string(),
        },
        MainClassEntry {
            main_class: "com.b.Main".to_string(),
            project_name: "b".to_string(),
            file_path: "/b".to_string(),
        },
    ];
    let r = resolve_entry_point(&None, &None, &entries);
    assert_eq!(r.unwrap_err(), BridgeError::AmbiguousEntryPoint);
    assert_eq!(
        BridgeError::AmbiguousEntryPoint.message(),
        "Project have multiple entry points, you must explicitly specify \"mainClass\" or \"projectName\""
    );
}

#[test]
fn single_matching_entry_point_overrides_hints() {
    let entries = vec![
        MainClassEntry {
            main_class: "com.a.Main".to_string(),
            project_name: "a".to_string(),
            file_path: "/a".to_string(),
        },
        MainClassEntry {
            main_class: "com.b.Main".to_string(),
            project_name: "b".to_string(),
            file_path: "/b".to_string(),
        },
    ];
    let hint = Some("com.b.Main".to_string());
    let (m, p) = resolve_entry_point(&hint, &None, &entries).unwrap();
    assert_eq!(m, Some("com.b.Main".to_string()));
    assert_eq!(p, Some("b".to_string()));
}

#[test]
fn no_matching_entry_point_passes_hints_through() {
    let entries: Vec<MainClassEntry> = Vec::new();
    let hint = Some("com.x.Main".to_string());
    let (m, p) = resolve_entry_point(&hint, &None, &entries).unwrap();
    assert_eq!(m, Some("com.x.Main".to_string()));
    assert_eq!(p, None);
}

#[test]
fn launch_config_parses_and_reserializes() {
    let doc = Json::Obj(vec![
        ("request".to_string(), Json::Str("launch".to_string())),
        ("mainClass".to_string(), Json::Str("com.a.Main".to_string())),
        (
            "classPaths".to_string(),
            Json::Arr(vec![Json::Str("$Auto".to_string())]),
        ),
        ("noDebug".to_string(), Json::Bool(false)),
        ("ignoredExtra".to_string(), Json::Num("7".to_string())),
    ]);
    let c = launch_config_from_json(&doc).unwrap();
    assert_eq!(c.request, "launch");
    assert_eq!(c.main_class, Some("com.a.Main".to_string()));
    assert_eq!(c.class_paths, Some(vec!["$Auto".to_string()]));
    assert_eq!(c.no_debug, Some(false));
    assert_eq!(c.cwd, None);
}

#[test]
fn launch_config_rejects_wrong_types() {
    let doc = Json::Obj(vec![
        ("request".to_string(), Json::Str("launch".to_string())),
        ("mainClass".to_string(), Json::Num("3".to_string())),
    ]);
    assert_eq!(
        launch_config_from_json(&doc).unwrap_err(),
        BridgeError::InvalidLaunchConfig
    );
    let no_request = Json::Obj(vec![]);
    assert_eq!(
        launch_config_from_json(&no_request).unwrap_err(),
        BridgeError::InvalidLaunchConfig
    );
}

#[test]
fn request_kind_distinguishes_launch_attach_and_errors() {
    let launch = Json::Obj(vec![(
        "request".to_string(),
        Json::Str("launch".to_string()),
    )]);
    let attach = Json::Obj(vec![(
        "request".to_string(),
        Json::Str("attach".to_string()),
    )]);
    let odd = Json::Obj(vec![("request".to_string(), Json::Str("x".to_string()))]);
    let missing = Json::Obj(vec![]);
    assert_eq!(dap_request_kind(&launch).unwrap(), DapRequestKind::Launch);
    assert_eq!(dap_request_kind(&attach).unwrap(), DapRequestKind::Attach);
    assert_eq!(
        dap_request_kind(&odd).unwrap_err(),
        BridgeError::UnexpectedRequest
    );
    assert_eq!(
        dap_request_kind(&missing).unwrap_err(),
        BridgeError::MissingRequest
    );
}

#[test]
fn attach_configs_render_exactly() {
    let with_pid = attach_config_json(Some(42), None);
    assert_eq!(
        to_json_string(&with_pid),
        "{\"request\":\"attach\",\"processId\":42,\"stopOnEntry\":null}"
    );
    let with_stop = attach_config_json(Some(7), Some(true));
    assert_eq!(
        to_json_string(&with_stop),
        "{\"request\":\"attach\",\"processId\":7,\"stopOnEntry\":true}"
    );
    let port_based = attach_config_json(None, Some(true));
    assert_eq!(
        to_json_string(&port_based),
        "{\"request\":\"attach\",\"hostName\":\"localhost\",\"port\":5005}"
    );
}

#[test]
fn debugger_tracks_plugin_state() {
    let mut d = fresh_debugger();
    assert!(!d.loaded());
    assert!(d.plugin_path().is_none());
    d.set_plugin_path("debugger/p.jar".to_string());
    assert!(d.loaded());
    assert_eq!(d.plugin_path().unwrap(), "debugger/p.jar");
}
