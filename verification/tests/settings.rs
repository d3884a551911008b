use basilisk_ls::json::{deep_merge, duplicate, Json};
use basilisk_ls::locator::{BasiliskExtension, Resolution};
use basilisk_ls::session::{
    build_override_launch, correct_path_prefix, dependency_first_check, dependency_recheck,
    init_options_payload, parse_override, resolve_entrypoint, resolve_mode, ExtError, Mode,
    UserOverride,
};
use basilisk_ls::fsenv::FsView;

fn obj(entries: Vec<(&str, Json)>) -> Json {
    Json::Obj(entries.into_iter().map(|(k, v)| (k.to_string(), v)).collect())
}

fn s(v: &str) -> Json {
    Json::Str(v.to_string())
}

fn get<'a>(v: &'a Json, k: &str) -> Option<&'a Json> {
    if let Json::Obj(m) = v {
        m.iter().find(|(kk, _)| kk == k).map(|(_, vv)| vv)
    } else {
        None
    }
}

fn keys(v: &Json) -> Vec<String> {
    if let Json::Obj(m) = v {
        m.iter().map(|(k, _)| k.clone()).collect()
    } else {
        Vec::new()
    }
}

fn settings_with_mode(mode: &str) -> Json {
    obj(vec![(
        "settings",
        obj(vec![("clangd", obj(vec![("mode", s(mode))]))]),
    )])
}

#[test]
fn mode_defaults_to_proxy_when_absent() {
    assert_eq!(resolve_mode(None), Mode::Proxy);
    assert_eq!(resolve_mode(Some(&Json::Null)), Mode::Proxy);
    assert_eq!(resolve_mode(Some(&obj(vec![]))), Mode::Proxy);
    let no_mode = obj(vec![("settings", obj(vec![("clangd", obj(vec![]))]))]);
    assert_eq!(resolve_mode(Some(&no_mode)), Mode::Proxy);
}

#[test]
fn mode_defaults_to_proxy_on_invalid_strings() {
    assert_eq!(resolve_mode(Some(&settings_with_mode("bogus"))), Mode::Proxy);
    assert_eq!(resolve_mode(Some(&settings_with_mode("Augment"))), Mode::Proxy);
    assert_eq!(resolve_mode(Some(&settings_with_mode(""))), Mode::Proxy);
    let non_string = obj(vec![(
        "settings",
        obj(vec![("clangd", obj(vec![("mode", Json::Bool(true))]))]),
    )]);
    assert_eq!(resolve_mode(Some(&non_string)), Mode::Proxy);
}

#[test]
fn valid_modes_resolve_to_themselves() {
    for name in ["proxy", "augment", "disabled"] {
        let mode = resolve_mode(Some(&settings_with_mode(name)));
        assert_eq!(mode.as_str(), name);
    }
}

#[test]
fn merge_with_sibling_key_preserves_all_keys() {
    let base = obj(vec![("a", s("1")), ("b", s("2"))]);
    let overlay = obj(vec![("c", s("3"))]);
    let merged = deep_merge(&base, &overlay);
    assert_eq!(keys(&merged), vec!["a", "b", "c"]);
    assert!(matches!(get(&merged, "a"), Some(Json::Str(v)) if v == "1"));
    assert!(matches!(get(&merged, "b"), Some(Json::Str(v)) if v == "2"));
    assert!(matches!(get(&merged, "c"), Some(Json::Str(v)) if v == "3"));
}

#[test]
fn merge_overwrites_scalars_and_recurses_into_mappings() {
    let base = obj(vec![(
        "a",
        obj(vec![("mode", s("proxy")), ("enabled", Json::Bool(true))]),
    )]);
    let overlay = obj(vec![("a", obj(vec![("mode", s("augment"))]))]);
    let merged = deep_merge(&base, &overlay);
    let a = get(&merged, "a").expect("key a kept");
    assert_eq!(keys(a), vec!["mode", "enabled"]);
    assert!(matches!(get(a, "mode"), Some(Json::Str(v)) if v == "augment"));
    assert!(matches!(get(a, "enabled"), Some(Json::Bool(true))));
}

#[test]
fn merge_replaces_non_mapping_with_overlay() {
    let base = obj(vec![("a", s("old"))]);
    let overlay = obj(vec![("a", Json::Int(7))]);
    let merged = deep_merge(&base, &overlay);
    assert!(matches!(get(&merged, "a"), Some(Json::Int(7))));
    let scalar_overlay = s("flat");
    let merged2 = deep_merge(&base, &scalar_overlay);
    assert!(matches!(merged2, Json::Str(v) if v == "flat"));
}

#[test]
fn duplicate_is_deep() {
    let v = obj(vec![("a", Json::Arr(vec![s("x"), Json::Int(-3)]))]);
    let copy = duplicate(&v);
    let a = get(&copy, "a").expect("key a kept");
    if let Json::Arr(items) = a {
        assert_eq!(items.len(), 2);
        assert!(matches!(&items[0], Json::Str(v) if v == "x"));
        assert!(matches!(items[1], Json::Int(-3)));
    } else {
        panic!("expected an array");
    }
}

#[test]
fn init_options_get_mode_injected() {
    let init = obj(vec![("basilisk", obj(vec![("trace", Json::Bool(false))]))]);
    let payload = init_options_payload(Some(&init), Mode::Augment);
    let ns = get(&payload, "basilisk").expect("namespace key");
    assert!(matches!(get(ns, "mode"), Some(Json::Str(v)) if v == "augment"));
    assert!(matches!(get(ns, "trace"), Some(Json::Bool(false))));
    let bare = init_options_payload(None, Mode::Disabled);
    let ns2 = get(&bare, "basilisk").expect("namespace key");
    assert!(matches!(get(ns2, "mode"), Some(Json::Str(v)) if v == "disabled"));
}

#[test]
fn workspace_configuration_holds_fallback_flags() {
    let mut ext = BasiliskExtension::new();
    ext.basilisk_root = Resolution::Found("/opt/tc".to_string());
    let config = ext.language_server_workspace_configuration();
    let clangd = get(&config, "clangd").expect("clangd key");
    if let Some(Json::Arr(flags)) = get(clangd, "fallbackFlags") {
        let texts: Vec<&str> = flags
            .iter()
            .map(|f| match f {
                Json::Str(t) => t.as_str(),
                _ => panic!("flags are strings"),
            })
            .collect();
        assert_eq!(texts, vec!["-std=c99", "-Wall", "-Wextra", "-I/opt/tc"]);
    } else {
        panic!("expected fallbackFlags array");
    }
}

#[test]
fn workspace_configuration_without_root_omits_include_flag() {
    let ext = BasiliskExtension::new();
    let config = ext.language_server_workspace_configuration();
    let clangd = get(&config, "clangd").expect("clangd key");
    if let Some(Json::Arr(flags)) = get(clangd, "fallbackFlags") {
        assert_eq!(flags.len(), 3);
    } else {
        panic!("expected fallbackFlags array");
    }
}

#[test]
fn workspace_configuration_with_mode_sets_nested_key() {
    let ext = BasiliskExtension::new();
    let config = ext.workspace_configuration_with_mode(Mode::Augment);
    let clangd = get(&config, "clangd").expect("clangd key");
    let ns = get(clangd, "basilisk").expect("namespace key");
    assert!(matches!(get(ns, "mode"), Some(Json::Str(v)) if v == "augment"));
    assert!(get(clangd, "fallbackFlags").is_some());
}

#[test]
fn override_resolves_relative_path_through_workspace_lookup() {
    let ov = UserOverride { path: "mytool".to_string(), arguments: None, env: None };
    let which = Some("/usr/local/bin/mytool".to_string());
    let launch = build_override_launch(&ov, &which, "/ws").expect("override accepted");
    assert_eq!(launch.command, "/usr/local/bin/mytool");
    assert!(launch.args.is_empty());
    assert!(launch.env.is_empty());
}

#[test]
fn override_relative_path_falls_back_to_root_join() {
    let ov = UserOverride { path: "bin/tool".to_string(), arguments: None, env: None };
    let launch = build_override_launch(&ov, &None, "/ws").expect("override accepted");
    assert_eq!(launch.command, "/ws/bin/tool");
}

#[test]
fn override_absolute_path_is_kept() {
    let ov = UserOverride {
        path: "/abs/tool".to_string(),
        arguments: Some(vec!["--x".to_string()]),
        env: Some(vec![("K".to_string(), "V".to_string())]),
    };
    let which = Some("/ignored".to_string());
    let launch = build_override_launch(&ov, &which, "/ws").expect("override accepted");
    assert_eq!(launch.command, "/abs/tool");
    assert_eq!(launch.args, vec!["--x".to_string()]);
    assert_eq!(launch.env, vec![("K".to_string(), "V".to_string())]);
}

#[test]
fn override_with_empty_path_fails_with_config_error() {
    let ov = UserOverride { path: "".to_string(), arguments: None, env: None };
    match build_override_launch(&ov, &None, "/ws") {
        Err(e) => {
            assert!(matches!(e, ExtError::Config(_)));
            assert_eq!(e.message(), "configuration error: override binary path is empty");
        },
        Ok(_) => panic!("an empty override path must be rejected"),
    }
}

#[test]
fn dependency_gate_accepts_exact_version_only() {
    assert!(dependency_first_check("1.2.3", &Some("1.2.3".to_string())));
    assert!(!dependency_first_check("1.2.3", &Some("1.2.4".to_string())));
    assert!(!dependency_first_check("1.2.3", &None));
    assert!(dependency_recheck("pkg", "1.2.3", &Some("1.2.3".to_string())).is_ok());
}

#[test]
fn dependency_recheck_failure_carries_details() {
    match dependency_recheck("pkg", "1.2.3", &Some("2.0.0".to_string())) {
        Err(ExtError::Dependency { package, required, found }) => {
            assert_eq!(package, "pkg");
            assert_eq!(required, "1.2.3");
            assert_eq!(found, Some("2.0.0".to_string()));
        },
        _ => panic!("a version mismatch after reinstall is fatal"),
    }
    let e = dependency_recheck("pkg", "1.2.3", &None).expect_err("absence is fatal");
    assert_eq!(
        e.message(),
        "dependency error: package pkg requires version 1.2.3, found none"
    );
}

#[test]
fn entrypoint_prefers_working_directory_candidate() {
    let fs = FsView {
        files: vec!["/work/ext/server/main.js".to_string()],
        existing: vec![],
    };
    let cwd: Vec<String> = vec!["", "work", "ext"].iter().map(|c| c.to_string()).collect();
    let r = resolve_entrypoint(&fs, &cwd, "ext", "server/main.js");
    assert_eq!(r.expect("found"), "/work/ext/server/main.js");
}

#[test]
fn entrypoint_falls_back_to_installed_location() {
    let fs = FsView {
        files: vec!["/installed/ext/server/main.js".to_string()],
        existing: vec![],
    };
    let cwd: Vec<String> = vec!["", "work", "ext"].iter().map(|c| c.to_string()).collect();
    let r = resolve_entrypoint(&fs, &cwd, "ext", "server/main.js");
    assert_eq!(r.expect("found"), "/installed/ext/server/main.js");
}

#[test]
fn entrypoint_missing_everywhere_is_fatal() {
    let fs = FsView { files: vec![], existing: vec![] };
    let cwd: Vec<String> = vec!["", "somewhere"].iter().map(|c| c.to_string()).collect();
    match resolve_entrypoint(&fs, &cwd, "ext", "server/main.js") {
        Err(e) => {
            assert!(matches!(e, ExtError::BundledAsset(_)));
            assert_eq!(e.message(), "bundled asset error: bundled server entrypoint not found");
        },
        Ok(_) => panic!("absence of both candidates is fatal"),
    }
}

#[test]
fn path_prefix_corrected_only_on_windows_family() {
    assert_eq!(correct_path_prefix("/C:/ext/bin", true), "C:/ext/bin");
    assert_eq!(correct_path_prefix("/C:/ext/bin", false), "/C:/ext/bin");
    assert_eq!(correct_path_prefix("/usr/bin", true), "/usr/bin");
}

#[test]
fn io_error_message_is_prefixed() {
    let e = ExtError::Io("unable to create build directory at /ws/build".to_string());
    assert_eq!(
        e.message(),
        "i/o error: unable to create build directory at /ws/build"
    );
}

#[test]
fn settings_without_override_block_give_none() {
    assert!(matches!(parse_override(&obj(vec![])), Ok(None)));
    assert!(matches!(parse_override(&Json::Null), Ok(None)));
}

#[test]
fn override_block_is_parsed_from_settings() {
    let settings = obj(vec![(
        "binary",
        obj(vec![
            ("path", s("mytool")),
            ("arguments", Json::Arr(vec![s("--a"), s("--b")])),
            ("env", obj(vec![("K", s("V"))])),
        ]),
    )]);
    let ov = parse_override(&settings).expect("well-formed").expect("present");
    assert_eq!(ov.path, "mytool");
    assert_eq!(ov.arguments, Some(vec!["--a".to_string(), "--b".to_string()]));
    assert_eq!(ov.env, Some(vec![("K".to_string(), "V".to_string())]));
    let which = Some("/usr/bin/mytool".to_string());
    let launch = build_override_launch(&ov, &which, "/ws").expect("accepted");
    assert_eq!(launch.command, "/usr/bin/mytool");
}

#[test]
fn malformed_override_block_is_a_config_error() {
    let no_path = obj(vec![("binary", obj(vec![("arguments", Json::Arr(vec![]))]))]);
    assert!(matches!(parse_override(&no_path), Err(ExtError::Config(_))));
    let bad_args = obj(vec![(
        "binary",
        obj(vec![("path", s("x")), ("arguments", Json::Arr(vec![Json::Int(1)]))]),
    )]);
    assert!(matches!(parse_override(&bad_args), Err(ExtError::Config(_))));
    let bad_env = obj(vec![(
        "binary",
        obj(vec![("path", s("x")), ("env", obj(vec![("K", Json::Bool(true))]))]),
    )]);
    assert!(matches!(parse_override(&bad_env), Err(ExtError::Config(_))));
    let not_mapping = obj(vec![("binary", s("x"))]);
    assert!(matches!(parse_override(&not_mapping), Err(ExtError::Config(_))));
}
