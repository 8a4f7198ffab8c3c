use texdesk::compiler::CompileError;
use texdesk::compiler::CompilePhase;
use texdesk::compiler::ProcessOutcome;
use texdesk::compiler::compiler_args;
use texdesk::compiler::on_persisted;
use texdesk::compiler::on_process_done;
use texdesk::compiler::start_compile;

#[test]
fn nonzero_exit_carries_stderr_verbatim() {
    let t = texdesk::workspace::resolve(Some("d/main.tex".to_string()), "/ws", true).unwrap();
    let diag = "! Undefined control sequence.\nl.3 \\frac\n";
    let r = on_process_done(
        &t,
        ProcessOutcome::Exited { success: false, stderr: diag.to_string() },
    );
    match r {
        Err(CompileError::CompileFailure { diagnostics }) => assert_eq!(diagnostics, diag),
        _ => panic!("expected a compile failure"),
    }
}

#[test]
fn zero_exit_swaps_extension_for_output_path() {
    let t = texdesk::workspace::resolve(Some("d/main.tex".to_string()), "/ws", true).unwrap();
    let r = on_process_done(
        &t,
        ProcessOutcome::Exited { success: true, stderr: String::new() },
    );
    assert_eq!(r.unwrap(), "d/main.pdf");
}

#[test]
fn spawn_refusal_is_tool_unavailable() {
    let t = texdesk::workspace::resolve(Some("d/main.tex".to_string()), "/ws", true).unwrap();
    let r = on_process_done(
        &t,
        ProcessOutcome::SpawnRefused { message: "no tectonic".to_string() },
    );
    match r {
        Err(CompileError::ToolUnavailable { message }) => {
            assert_eq!(message, "Failed to create sidecar: no tectonic");
        },
        _ => panic!("expected tool unavailability"),
    }
}

#[test]
fn execution_failure_is_tool_unavailable() {
    let t = texdesk::workspace::resolve(Some("d/main.tex".to_string()), "/ws", true).unwrap();
    let r = on_process_done(
        &t,
        ProcessOutcome::ExecutionFailed { message: "permission denied".to_string() },
    );
    match r {
        Err(CompileError::ToolUnavailable { message }) => {
            assert_eq!(message, "Tectonic execution error: permission denied");
        },
        _ => panic!("expected tool unavailability"),
    }
}

#[test]
fn start_compile_resolves_before_persisting() {
    match start_compile(Some("a/b.tex".to_string()), "/ws", true) {
        CompilePhase::Persist { target } => {
            assert_eq!(target.absolute_path, "a/b.tex");
            assert_eq!(target.working_directory, "a/");
            assert_eq!(target.file_name, "b.tex");
        },
        _ => panic!("expected the persist phase"),
    }
}

#[test]
fn start_compile_without_root_finishes_with_configuration_error() {
    match start_compile(None, "/nowhere", false) {
        CompilePhase::Finished { result } => match result {
            Err(CompileError::Configuration { message }) => {
                assert_eq!(message, "src-tauri dir does not exist: /nowhere");
            },
            _ => panic!("expected a configuration error"),
        },
        _ => panic!("expected a finished run"),
    }
}

#[test]
fn successful_persist_reaches_invoke_with_same_target() {
    let t = texdesk::workspace::resolve(Some("d/main.tex".to_string()), "/ws", true).unwrap();
    match on_persisted(t, Ok(())) {
        CompilePhase::Invoke { target } => {
            assert_eq!(target.absolute_path, "d/main.tex");
            assert_eq!(target.working_directory, "d/");
            assert_eq!(target.file_name, "main.tex");
        },
        _ => panic!("expected the invoke phase"),
    }
}

#[test]
fn failed_persist_finishes_without_invoking() {
    let t = texdesk::workspace::resolve(Some("d/main.tex".to_string()), "/ws", true).unwrap();
    match on_persisted(t, Err("disk full".to_string())) {
        CompilePhase::Finished { result } => match result {
            Err(CompileError::Io { message }) => assert_eq!(message, "disk full"),
            _ => panic!("expected an I/O error"),
        },
        _ => panic!("expected a finished run"),
    }
}

#[test]
fn compiler_arguments_are_compile_then_file_name() {
    let t = texdesk::workspace::resolve(Some("d/main.tex".to_string()), "/ws", true).unwrap();
    let args = compiler_args(&t);
    assert_eq!(args, vec!["compile".to_string(), "main.tex".to_string()]);
}
