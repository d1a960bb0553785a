use flox_envs::go::{Go, GoModule, GoModuleSystemKind, GoVersion, GoWorkspace};

fn version(contents: &str) -> Option<String> {
    GoVersion::get_version_from_contents(&contents.as_bytes().to_vec())
        .map(|v| String::from_utf8(v).unwrap())
}

#[test]
fn workspace_file_goes_before_module_file() {
    let work = b"go 1.21\nuse ./a\n".to_vec();
    let module = b"module example.com/m\n".to_vec();
    let unspecified = GoVersion::Unspecified;
    assert_eq!(
        Go::new(Some(&work), Some(&module)).module_system,
        Some(GoModuleSystemKind::Workspace(GoWorkspace { version: unspecified }))
    );
    assert_eq!(
        Go::new(Some(&work), None).module_system,
        Some(GoModuleSystemKind::Workspace(GoWorkspace { version: unspecified }))
    );
    assert_eq!(
        Go::new(None, Some(&module)).module_system,
        Some(GoModuleSystemKind::Module(GoModule { version: unspecified }))
    );
    assert_eq!(Go::new(None, None).module_system, None);
    assert_eq!(Go::detect_module_system(None, None), None);
    assert!(Go::new(None, Some(&module)).should_run());
    assert!(!Go::new(None, None).should_run());
}

#[test]
fn module_system_files_have_their_names() {
    let module = GoModule::new(&b"module m\n".to_vec());
    let workspace = GoWorkspace::new(&Vec::new());
    assert_eq!(module.get_filename(), b"go.mod".to_vec());
    assert_eq!(workspace.get_filename(), b"go.work".to_vec());
    assert_eq!(module.get_version(), GoVersion::Unspecified);
    assert_eq!(workspace.get_version(), GoVersion::Unspecified);
    assert!(GoModule::try_new(None).is_none());
    assert!(GoWorkspace::try_new(None).is_none());
    assert_eq!(
        GoVersion::from_module_system_contents(&b"go 1.21\nmodule m v\n".to_vec()),
        GoVersion::Unspecified
    );
}

#[test]
fn version_is_the_second_word_of_the_first_line_without_go() {
    assert_eq!(version("module example.com/m\n\ngo 1.21\n"), Some("example.com/m".to_string()));
    assert_eq!(version("go 1.21\nmodule x y\n"), Some("x".to_string()));
    assert_eq!(version("go 1.21\n  \tgo 1.22\n toolchain   go1.22.1  rest"), Some("go1.22.1".to_string()));
    assert_eq!(version("a b"), Some("b".to_string()));
    assert_eq!(version("a\tb\r\nc d"), Some("b".to_string()));
}

#[test]
fn version_is_missing_without_a_second_word() {
    assert_eq!(version(""), None);
    assert_eq!(version("go 1.21"), None);
    assert_eq!(version("go 1.21\n"), None);
    assert_eq!(version("go 1.21\n\nmodule m v\n"), None);
    assert_eq!(version("  go\nfoo"), None);
    assert_eq!(version("gopher a b"), None);
    assert_eq!(version("module\n"), None);
    assert_eq!(version("   \nx y"), None);
}
