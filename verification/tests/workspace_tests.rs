use texdesk::workspace::WorkspaceError;
use texdesk::workspace::join_path;
use texdesk::workspace::resolve;
use texdesk::workspace::split_path;
use texdesk::workspace::src_tauri_dir;
use texdesk::workspace::swap_extension;

#[test]
fn resolve_present_path_decomposes_losslessly() {
    let t = resolve(Some("a/b/c.tex".to_string()), "/fallback", true).unwrap();
    assert_eq!(t.absolute_path, "a/b/c.tex");
    assert_eq!(t.working_directory, "a/b/");
    assert_eq!(t.file_name, "c.tex");
    // Round trip: working directory + file name is the path again.
    assert_eq!(format!("{}{}", t.working_directory, t.file_name), "a/b/c.tex");
}

#[test]
fn resolve_bare_name_has_empty_directory() {
    let t = resolve(Some("c.tex".to_string()), "/fallback", true).unwrap();
    assert_eq!(t.working_directory, "");
    assert_eq!(t.file_name, "c.tex");
    assert_eq!(format!("{}{}", t.working_directory, t.file_name), "c.tex");
}

#[test]
fn resolve_absent_path_uses_fallback_root() {
    let t = resolve(None, "/ws", true).unwrap();
    assert_eq!(t.absolute_path, "/ws/main.tex");
    assert_eq!(t.working_directory, "/ws");
    assert_eq!(t.file_name, "main.tex");
}

#[test]
fn resolve_blank_path_is_treated_as_absent() {
    let t = resolve(Some("   \n".to_string()), "/ws", true).unwrap();
    assert_eq!(t.absolute_path, "/ws/main.tex");
    assert_eq!(t.file_name, "main.tex");
}

#[test]
fn resolve_fallback_is_deterministic() {
    let a = resolve(None, "/ws", true).unwrap();
    let b = resolve(None, "/ws", true).unwrap();
    assert_eq!(a.absolute_path, b.absolute_path);
    assert_eq!(a.working_directory, b.working_directory);
    assert_eq!(a.file_name, b.file_name);
}

#[test]
fn resolve_missing_root_is_configuration_error() {
    match resolve(None, "/nowhere", false) {
        Err(WorkspaceError::Configuration { message }) => {
            assert_eq!(message, "src-tauri dir does not exist: /nowhere");
        },
        Ok(_) => panic!("expected a configuration error"),
    }
}

#[test]
fn src_tauri_dir_passes_through_existing_directory() {
    assert_eq!(src_tauri_dir("/app/src-tauri", true).unwrap(), "/app/src-tauri");
}

#[test]
fn src_tauri_dir_reports_missing_directory() {
    let e = src_tauri_dir("/app/src-tauri", false).unwrap_err();
    assert_eq!(e, "src-tauri dir does not exist: /app/src-tauri");
}

#[test]
fn split_path_keeps_separator_on_directory() {
    let (dir, name) = split_path("/x/y/z.tex");
    assert_eq!(dir, "/x/y/");
    assert_eq!(name, "z.tex");
}

#[test]
fn join_path_inserts_separator_only_when_needed() {
    assert_eq!(join_path("a", "b"), "a/b");
    assert_eq!(join_path("a/", "b"), "a/b");
    assert_eq!(join_path("", "b"), "b");
}

#[test]
fn swap_extension_replaces_final_extension() {
    assert_eq!(swap_extension("a/b/main.tex", "pdf"), "a/b/main.pdf");
    assert_eq!(swap_extension("a.tar.gz", "pdf"), "a.tar.pdf");
}

#[test]
fn swap_extension_appends_when_name_has_none() {
    assert_eq!(swap_extension("notes", "pdf"), "notes.pdf");
    assert_eq!(swap_extension("dir.d/file", "pdf"), "dir.d/file.pdf");
    assert_eq!(swap_extension(".bashrc", "pdf"), ".bashrc.pdf");
}
