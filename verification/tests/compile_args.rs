use typst_ts_cli::args::{
    ArgsError, CompileArgs, CompileOnceArgs, DiagnosticFormat, MainId, output_dir_for,
};
use typst_ts_cli::diagnostics;

fn args(workspace: &str, entry: &str, output: &str) -> CompileOnceArgs {
    CompileOnceArgs {
        workspace: workspace.to_string(),
        entry: entry.to_string(),
        output: output.to_string(),
        ..Default::default()
    }
}

fn workspace_id(id: MainId) -> (String, String) {
    match id {
        MainId::Workspace { root, vpath } => (root, vpath),
        MainId::MemoryMain => panic!("expected a workspace file"),
    }
}

#[test]
fn dash_is_stdin() {
    assert!(args(".", "-", "").is_stdin());
    assert!(!args(".", "main.typ", "").is_stdin());
    assert!(!args(".", "--", "").is_stdin());
}

#[test]
fn absolute_workspace_is_the_root() {
    let mut a = args("/proj", "main.typ", "");
    assert_eq!(a.root("/cwd"), "/proj");
}

#[test]
fn relative_workspace_is_under_cwd() {
    let mut a = args(".", "main.typ", "");
    assert_eq!(a.root("/home/u"), "/home/u/.");
    let mut b = args("docs", "main.typ", "");
    assert_eq!(b.root("/home/u/"), "/home/u/docs");
}

#[test]
fn root_is_resolved_once() {
    let mut a = args(".", "main.typ", "");
    assert_eq!(a.root("/first"), "/first/.");
    assert_eq!(a.root("/second"), "/first/.");
    assert_eq!(a.parsed_entry, Some("/first/.".to_string()));
}

#[test]
fn stdin_is_the_memory_main() {
    let mut a = args("/proj", "-", "");
    assert!(matches!(a.main_id("/cwd"), Ok(MainId::MemoryMain)));
    assert_eq!(a.parsed_entry, None);
}

#[test]
fn relative_entry_is_found_in_workspace() {
    let mut a = args(".", "sub/main.typ", "");
    let (root, vpath) = workspace_id(a.main_id("/w").unwrap());
    assert_eq!(root, "/w/.");
    assert_eq!(vpath, "/sub/main.typ");
}

#[test]
fn entry_path_is_normalised_as_virtual_path() {
    let mut a = args("/w", "/w/sub/../main.typ", "");
    let (root, vpath) = workspace_id(a.main_id("/cwd").unwrap());
    assert_eq!(root, "/w");
    assert_eq!(vpath, "/main.typ");
}

#[test]
fn main_id_is_resolved_once() {
    let mut a = args(".", "main.typ", "");
    let first = workspace_id(a.main_id("/one").unwrap());
    let second = workspace_id(a.main_id("/two").unwrap());
    assert_eq!(first, second);
    assert_eq!(first.0, "/one/.");
}

#[test]
fn entry_outside_workspace_is_refused() {
    let mut a = args("/w", "/elsewhere/x.typ", "");
    match a.main_id("/cwd") {
        Err(e @ ArgsError::EntryOutsideWorkspace { .. }) => {
            assert_eq!(
                e.message(),
                "entry file path must be in workspace directory: /w\n"
            );
        }
        other => panic!("unexpected {:?}", other),
    }
    assert!(a.main_id.is_none());
    assert_eq!(a.parsed_entry, Some("/w".to_string()));
}

#[test]
fn output_dir_is_directory_of_entry() {
    let mut a = args(".", "sub/main.typ", "");
    assert_eq!(a.output_dir("/w").unwrap(), "/w/sub");
    let mut b = args(".", "main.typ", "");
    assert_eq!(b.output_dir("/w").unwrap(), "/w");
    let mut c = args("/w", "/w/sub/main.typ", "");
    assert_eq!(c.output_dir("/cwd").unwrap(), "/w/sub");
    let mut d = args("/w/", "/w//sub/./deep/main.typ", "");
    assert_eq!(d.output_dir("/cwd").unwrap(), "/w/sub/deep");
    let mut e = args("/w", "/w/sub/../main.typ", "");
    assert_eq!(e.output_dir("/cwd").unwrap(), "/w");
}

#[test]
fn output_dir_given_is_kept() {
    let mut a = args(".", "main.typ", "out/dir");
    assert_eq!(a.output_dir("/w").unwrap(), "out/dir");
    assert_eq!(a.parsed_output, Some("out/dir".to_string()));
}

#[test]
fn output_dir_for_stdin_is_cwd() {
    let mut a = args(".", "-", "");
    assert_eq!(a.output_dir("/here").unwrap(), "/here");
}

#[test]
fn output_dir_needs_entry_in_workspace_even_when_given() {
    let mut a = args("/w", "/x/main.typ", "out");
    assert!(matches!(a.output_dir("/cwd"), Err(ArgsError::EntryOutsideWorkspace { .. })));
}

#[test]
fn entry_equal_to_workspace_has_no_parent() {
    let mut a = args("/w", "/w", "");
    let e = a.output_dir("/cwd").unwrap_err();
    assert!(matches!(e, ArgsError::EntryWithoutParent));
    assert_eq!(e.message(), "entry file has no parent");
}

#[test]
fn output_dir_is_resolved_once() {
    let mut a = args(".", "sub/main.typ", "");
    assert_eq!(a.output_dir("/w").unwrap(), "/w/sub");
    assert!(a.main_id.is_some());
    a.entry = "other/file.typ".to_string();
    a.output = "elsewhere".to_string();
    assert_eq!(a.output_dir("/elsewhere").unwrap(), "/w/sub");
}

#[test]
fn cached_memory_main_after_entry_change() {
    let mut a = args(".", "-", "");
    assert!(matches!(a.main_id("/cwd"), Ok(MainId::MemoryMain)));
    a.entry = "main.typ".to_string();
    assert_eq!(a.output_dir("/here").unwrap(), "/here");
    let mut b = args(".", "-", "");
    assert!(matches!(b.main_id("/cwd"), Ok(MainId::MemoryMain)));
    b.entry = "main.typ".to_string();
    b.output = "out".to_string();
    assert_eq!(b.output_dir("/here").unwrap(), "out");
}

#[test]
fn output_dir_for_workspace_file() {
    let id = MainId::Workspace { root: "/w".to_string(), vpath: "/a/b/c.typ".to_string() };
    assert_eq!(output_dir_for("", false, "/cwd", &id).unwrap(), "/w/a/b");
    assert_eq!(output_dir_for("", false, "/cwd", &MainId::MemoryMain).unwrap(), "/cwd");
    assert_eq!(output_dir_for("o", false, "/cwd", &id).unwrap(), "o");
    assert_eq!(output_dir_for("", true, "/cwd", &id).unwrap(), "/cwd");
}

#[test]
fn diagnostic_format_defaults_to_human() {
    assert_eq!(DiagnosticFormat::default(), DiagnosticFormat::Human);
    assert_eq!(DiagnosticFormat::Human.to_string(), "human");
    assert_eq!(DiagnosticFormat::Short.to_string(), "short");
}

#[test]
fn diagnostic_format_converts() {
    assert_eq!(
        diagnostics::DiagnosticFormat::from(DiagnosticFormat::Short),
        diagnostics::DiagnosticFormat::Short
    );
    assert_eq!(
        diagnostics::DiagnosticFormat::from(DiagnosticFormat::Human),
        diagnostics::DiagnosticFormat::Human
    );
}

#[test]
fn diagnostics_handler_follows_arguments() {
    let mut c = CompileArgs::default();
    c.watch = true;
    c.diagnostic_format = DiagnosticFormat::Short;
    let h = c.diagnostics_handler();
    assert_eq!(h.diagnostic_format, diagnostics::DiagnosticFormat::Short);
    assert!(h.print_compile_status);
    let d = CompileArgs::default().diagnostics_handler();
    assert_eq!(d.diagnostic_format, diagnostics::DiagnosticFormat::Human);
    assert!(!d.print_compile_status);
}
