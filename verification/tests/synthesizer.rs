use basilisk_ls::db::{plan_database, render_db, synthesize_entries, CompileEntry, SourceFile};
use basilisk_ls::fsenv::{Environment, FsView};
use basilisk_ls::locator::{BasiliskExtension, Resolution};

fn files(paths: &[&[&str]]) -> Vec<SourceFile> {
    paths
        .iter()
        .map(|p| SourceFile { components: p.iter().map(|c| c.to_string()).collect() })
        .collect()
}

fn fsview(file_paths: &[&str], existing: &[&str]) -> FsView {
    FsView {
        files: file_paths.iter().map(|p| p.to_string()).collect(),
        existing: existing.iter().map(|p| p.to_string()).collect(),
    }
}

fn empty_env(root: &str) -> Environment {
    Environment {
        worktree_root: root.to_string(),
        which_qcc: None,
        which_clangd: None,
        qcc_path_var: None,
        basilisk_var: None,
        home_var: None,
        fs: fsview(&[], &[]),
    }
}

#[test]
fn path_resolver_direct_marker() {
    let fs = fsview(&["/tc/Makefile.defs"], &[]);
    let r = BasiliskExtension::normalize_basilisk_root(&fs, "/tc");
    assert_eq!(r, Some("/tc".to_string()));
}

#[test]
fn path_resolver_src_marker() {
    let fs = fsview(&["/tc/src/Makefile.defs"], &[]);
    let r = BasiliskExtension::normalize_basilisk_root(&fs, "/tc");
    assert_eq!(r, Some("/tc/src".to_string()));
}

#[test]
fn path_resolver_no_marker() {
    let fs = fsview(&["/tc/README"], &[]);
    let r = BasiliskExtension::normalize_basilisk_root(&fs, "/tc");
    assert_eq!(r, None);
}

#[test]
fn path_resolver_prefers_direct_over_src() {
    let fs = fsview(&["/tc/Makefile.defs", "/tc/src/Makefile.defs"], &[]);
    let r = BasiliskExtension::normalize_basilisk_root(&fs, "/tc");
    assert_eq!(r, Some("/tc".to_string()));
}

#[test]
fn find_qcc_prefers_workspace_path_lookup() {
    let mut env = empty_env("/ws");
    env.which_qcc = Some("/ws/bin/qcc".to_string());
    env.qcc_path_var = Some("/elsewhere/qcc".to_string());
    env.fs = fsview(&[], &["/elsewhere/qcc"]);
    assert_eq!(BasiliskExtension::find_qcc(&env), Some("/ws/bin/qcc".to_string()));
}

#[test]
fn find_qcc_env_var_must_exist() {
    let mut env = empty_env("/ws");
    env.qcc_path_var = Some("/missing/qcc".to_string());
    assert_eq!(BasiliskExtension::find_qcc(&env), None);
    env.fs = fsview(&[], &["/missing/qcc"]);
    assert_eq!(BasiliskExtension::find_qcc(&env), Some("/missing/qcc".to_string()));
}

#[test]
fn find_qcc_empty_env_var_is_skipped() {
    let mut env = empty_env("/ws");
    env.qcc_path_var = Some("".to_string());
    assert_eq!(BasiliskExtension::find_qcc(&env), None);
}

#[test]
fn find_qcc_through_toolchain_root_variable() {
    let mut env = empty_env("/ws");
    env.basilisk_var = Some("/opt/tc".to_string());
    env.fs = fsview(&["/opt/tc/src/Makefile.defs"], &["/opt/tc/src/qcc"]);
    assert_eq!(BasiliskExtension::find_qcc(&env), Some("/opt/tc/src/qcc".to_string()));
}

#[test]
fn find_qcc_home_convention_before_workspace() {
    let mut env = empty_env("/ws");
    env.home_var = Some("/home/u".to_string());
    env.fs = fsview(
        &["/home/u/basilisk/Makefile.defs", "/ws/basilisk/Makefile.defs"],
        &["/home/u/basilisk/qcc", "/ws/basilisk/qcc"],
    );
    assert_eq!(BasiliskExtension::find_qcc(&env), Some("/home/u/basilisk/qcc".to_string()));
}

#[test]
fn find_qcc_workspace_convention_last() {
    let mut env = empty_env("/ws");
    env.fs = fsview(&["/ws/basilisk/src/Makefile.defs"], &["/ws/basilisk/src/qcc"]);
    assert_eq!(BasiliskExtension::find_qcc(&env), Some("/ws/basilisk/src/qcc".to_string()));
}

#[test]
fn include_root_workspace_before_home() {
    let mut env = empty_env("/ws");
    env.home_var = Some("/home/u".to_string());
    env.fs = fsview(
        &["/home/u/basilisk/Makefile.defs", "/ws/basilisk/Makefile.defs"],
        &[],
    );
    assert_eq!(
        BasiliskExtension::detect_basilisk_root(&env),
        Some("/ws/basilisk".to_string())
    );
}

#[test]
fn include_root_env_variable_first() {
    let mut env = empty_env("/ws");
    env.basilisk_var = Some("/opt/tc".to_string());
    env.fs = fsview(&["/opt/tc/Makefile.defs", "/ws/basilisk/Makefile.defs"], &[]);
    assert_eq!(BasiliskExtension::detect_basilisk_root(&env), Some("/opt/tc".to_string()));
}

#[test]
fn binary_and_include_root_can_disagree() {
    let mut env = empty_env("/ws");
    env.which_qcc = Some("/ws/bin/qcc".to_string());
    assert_eq!(BasiliskExtension::find_qcc(&env), Some("/ws/bin/qcc".to_string()));
    assert_eq!(BasiliskExtension::detect_basilisk_root(&env), None);
}

#[test]
fn detection_caches_absence() {
    let mut ext = BasiliskExtension::new();
    let env = empty_env("/ws");
    ext.detect_environment(&env);
    assert!(matches!(ext.qcc_path, Resolution::Missing));
    let mut second = empty_env("/ws");
    second.which_qcc = Some("/late/qcc".to_string());
    ext.detect_environment(&second);
    assert!(matches!(ext.qcc_path, Resolution::Missing));
}

#[test]
fn synthesizer_command_formula() {
    let qcc = Some("/opt/qcc".to_string());
    let inc = Some("/opt/basilisk".to_string());
    let entries = synthesize_entries("/ws", &qcc, &inc, &files(&[&["sub", "flow.c"]]));
    assert_eq!(entries.len(), 1);
    assert_eq!(entries[0].directory, "/ws/sub");
    assert_eq!(entries[0].file, "/ws/sub/flow.c");
    assert_eq!(
        entries[0].command,
        "/opt/qcc -Wall -O2 -disable-dimensions \"/ws/sub/flow.c\" -o \"/ws/sub/flow\" -lm -I/opt/basilisk"
    );
}

#[test]
fn synthesizer_bare_fallback_without_resolution() {
    let entries = synthesize_entries("/ws", &None, &None, &files(&[&["main.c"]]));
    assert_eq!(entries.len(), 1);
    assert_eq!(entries[0].directory, "/ws");
    assert_eq!(
        entries[0].command,
        "qcc -Wall -O2 -disable-dimensions \"/ws/main.c\" -o \"/ws/main\" -lm"
    );
}

#[test]
fn synthesizer_excludes_fixed_directories_at_any_depth() {
    let walked = files(&[
        &["src", "main.c"],
        &["build", "x.c"],
        &["a", "node_modules", "y.c"],
        &["sub", ".git", "z.c"],
        &["target", "deep", "w.c"],
        &["a", "deep", "nested", "build", "v.c"],
    ]);
    let entries = synthesize_entries("/ws", &None, &None, &walked);
    assert_eq!(entries.len(), 1);
    assert_eq!(entries[0].file, "/ws/src/main.c");
}

#[test]
fn synthesizer_keeps_sibling_of_excluded_directory() {
    let walked = files(&[&["a", "build", "x.c"], &["a", "ok", "y.c"]]);
    let entries = synthesize_entries("/ws", &None, &None, &walked);
    assert_eq!(entries.len(), 1);
    assert_eq!(entries[0].file, "/ws/a/ok/y.c");
}

#[test]
fn synthesizer_only_takes_c_extension() {
    let walked = files(&[&["a.c"], &["b.h"], &["c"], &[".c"], &["build.c"], &["d.c.txt"]]);
    let entries = synthesize_entries("/ws", &None, &None, &walked);
    let names: Vec<&str> = entries.iter().map(|e| e.file.as_str()).collect();
    assert_eq!(names, vec!["/ws/a.c", "/ws/build.c"]);
}

#[test]
fn empty_set_without_database_seeds_empty_array() {
    let entries: Vec<CompileEntry> = Vec::new();
    assert_eq!(plan_database(&entries, false), Some("[]".to_string()));
}

#[test]
fn empty_set_with_database_leaves_it_untouched() {
    let entries: Vec<CompileEntry> = Vec::new();
    assert_eq!(plan_database(&entries, true), None);
}

#[test]
fn nonempty_set_always_overwrites() {
    let entries = synthesize_entries("/ws", &None, &None, &files(&[&["m.c"]]));
    let planned = plan_database(&entries, true).expect("a rebuild is planned");
    assert_eq!(planned, render_db(&entries));
}

#[test]
fn database_text_is_pretty_printed() {
    let entries = vec![CompileEntry {
        directory: "/ws".to_string(),
        file: "/ws/m.c".to_string(),
        command: "qcc \"/ws/m.c\"".to_string(),
    }];
    let expected = "[\n  {\n    \"directory\": \"/ws\",\n    \"file\": \"/ws/m.c\",\n    \"command\": \"qcc \\\"/ws/m.c\\\"\"\n  }\n]";
    assert_eq!(render_db(&entries), expected);
}

#[test]
fn database_text_escapes_control_characters() {
    let entries = vec![CompileEntry {
        directory: "/w\ns".to_string(),
        file: "/ws\\m.c".to_string(),
        command: "x".to_string(),
    }];
    let text = render_db(&entries);
    assert!(text.contains("\"/w\\u000as\""));
    assert!(text.contains("\"/ws\\\\m.c\""));
}

#[test]
fn database_text_joins_entries_with_commas() {
    let entries = synthesize_entries("/ws", &None, &None, &files(&[&["a.c"], &["b.c"]]));
    let text = render_db(&entries);
    assert!(text.starts_with("[\n  {\n"));
    assert!(text.ends_with("\n  }\n]"));
    assert_eq!(text.matches("\"directory\"").count(), 2);
    assert_eq!(text.matches("},\n  {").count(), 1);
}

#[test]
fn quote_path_wraps_in_double_quotes() {
    assert_eq!(BasiliskExtension::quote_path("/a b/c"), "\"/a b/c\"");
}

#[test]
fn included_directory_filter() {
    assert!(BasiliskExtension::is_included_directory("."));
    assert!(BasiliskExtension::is_included_directory(".."));
    assert!(BasiliskExtension::is_included_directory("src"));
    assert!(!BasiliskExtension::is_included_directory("build"));
    assert!(!BasiliskExtension::is_included_directory("target"));
    assert!(!BasiliskExtension::is_included_directory(".git"));
    assert!(!BasiliskExtension::is_included_directory("node_modules"));
}

#[test]
fn launch_command_composition() {
    let mut ext = BasiliskExtension::new();
    let mut env = empty_env("/ws");
    env.which_clangd = Some("/usr/bin/clangd".to_string());
    env.which_qcc = Some("/ws/bin/qcc".to_string());
    env.basilisk_var = Some("/opt/tc".to_string());
    env.fs = fsview(&["/opt/tc/Makefile.defs"], &[]);
    let (launch, db) = ext.language_server_command(&env, &files(&[&["m.c"]]), false);
    assert_eq!(launch.command, "/usr/bin/clangd");
    assert_eq!(
        launch.args,
        vec![
            "--background-index".to_string(),
            "--clang-tidy".to_string(),
            "--header-insertion=never".to_string(),
            "--compile-commands-dir=/ws/build".to_string(),
            "--query-driver=/ws/bin/qcc".to_string(),
        ]
    );
    assert_eq!(launch.env, vec![("BASILISK_ROOT".to_string(), "/opt/tc".to_string())]);
    assert!(db.is_some());
}

#[test]
fn launch_degrades_to_bare_names() {
    let mut ext = BasiliskExtension::new();
    let env = empty_env("/ws");
    let (launch, db) = ext.language_server_command(&env, &Vec::new(), false);
    assert_eq!(launch.command, "clangd");
    assert_eq!(launch.args.len(), 4);
    assert!(launch.env.is_empty());
    assert_eq!(db, Some("[]".to_string()));
}
