//! Compiler orchestration: one run resolves the target, persists the editor
//! content to it, invokes the external typesetting compiler inside the
//! resolved working directory, and classifies the outcome. The host performs
//! the write and the subprocess launch and reports what it observed; every
//! decision between those observations is made here.

use vstd::prelude::*;
use vstd::string::StringExecFns;

use crate::workspace::WorkspaceError;
use crate::workspace::WorkspaceTarget;
use crate::workspace::opt_view;
use crate::workspace::resolve;
use crate::workspace::resolve_spec;
use crate::workspace::swap_ext_spec;
use crate::workspace::swap_extension;

verus! {

/// How a compile run can fail.
#[derive(Debug)]
pub enum CompileError {
    /// The fallback workspace root is missing.
    Configuration { message: String },
    /// Persisting the document failed; no compile was attempted.
    Io { message: String },
    /// The compiler subprocess could not be launched at all.
    ToolUnavailable { message: String },
    /// The compiler ran and rejected the document; its standard-error stream
    /// is carried verbatim.
    CompileFailure { diagnostics: String },
}

/// What the host observed of the compiler subprocess.
pub enum ProcessOutcome {
    /// The sidecar command could not be constructed.
    SpawnRefused { message: String },
    /// Launching or awaiting the process failed.
    ExecutionFailed { message: String },
    /// The process ran to completion.
    Exited { success: bool, stderr: String },
}

/// Ghost mirror of [`ProcessOutcome`].
pub enum ProcessOutcomeSpec {
    SpawnRefused(Seq<char>),
    ExecutionFailed(Seq<char>),
    Exited(bool, Seq<char>),
}

/// Ghost mirror of [`CompileError`].
pub enum CompileErrorSpec {
    Configuration(Seq<char>),
    Io(Seq<char>),
    ToolUnavailable(Seq<char>),
    CompileFailure(Seq<char>),
}

/// The view of a process observation.
pub open spec fn outcome_view(o: ProcessOutcome) -> ProcessOutcomeSpec {
    match o {
        ProcessOutcome::SpawnRefused { message } => ProcessOutcomeSpec::SpawnRefused(message@),
        ProcessOutcome::ExecutionFailed { message } => ProcessOutcomeSpec::ExecutionFailed(
            message@,
        ),
        ProcessOutcome::Exited { success, stderr } => ProcessOutcomeSpec::Exited(success, stderr@),
    }
}

/// An exec error carries exactly the ghost error's text.
pub open spec fn error_matches(m: CompileErrorSpec, e: CompileError) -> bool {
    match (m, e) {
        (
            CompileErrorSpec::Configuration(t),
            CompileError::Configuration { message },
        ) => message@ == t,
        (CompileErrorSpec::Io(t), CompileError::Io { message }) => message@ == t,
        (
            CompileErrorSpec::ToolUnavailable(t),
            CompileError::ToolUnavailable { message },
        ) => message@ == t,
        (
            CompileErrorSpec::CompileFailure(t),
            CompileError::CompileFailure { diagnostics },
        ) => diagnostics@ == t,
        _ => false,
    }
}

/// An exec run result carries exactly the ghost result.
pub open spec fn result_matches(
    m: Result<Seq<char>, CompileErrorSpec>,
    r: Result<String, CompileError>,
) -> bool {
    match (m, r) {
        (Ok(p), Ok(s)) => s@ == p,
        (Err(me), Err(re)) => error_matches(me, re),
        _ => false,
    }
}

/// Message reported when the sidecar command cannot be constructed.
pub open spec fn spawn_refused_message(m: Seq<char>) -> Seq<char> {
    "Failed to create sidecar: "@ + m
}

/// Message reported when launching or awaiting the process fails.
pub open spec fn execution_failed_message(m: Seq<char>) -> Seq<char> {
    "Tectonic execution error: "@ + m
}

/// The extension of the compiled output artifact.
pub open spec fn output_extension() -> Seq<char> {
    "pdf"@
}

/// Classification of a finished invocation: a launch failure surfaces as
/// tool unavailability; a non-zero exit carries the compiler's diagnostics
/// verbatim; a zero exit derives the artifact path by swapping the
/// document's extension.
pub open spec fn classify_spec(abs: Seq<char>, o: ProcessOutcomeSpec) -> Result<
    Seq<char>,
    CompileErrorSpec,
> {
    match o {
        ProcessOutcomeSpec::SpawnRefused(m) => Err(
            CompileErrorSpec::ToolUnavailable(spawn_refused_message(m)),
        ),
        ProcessOutcomeSpec::ExecutionFailed(m) => Err(
            CompileErrorSpec::ToolUnavailable(execution_failed_message(m)),
        ),
        ProcessOutcomeSpec::Exited(success, stderr) => {
            if success {
                Ok(swap_ext_spec(abs, output_extension()))
            } else {
                Err(CompileErrorSpec::CompileFailure(stderr))
            }
        },
    }
}

/// One whole compile run as a function of the host's three observations:
/// resolution, the document write, and the subprocess outcome. A failed
/// write ends the run with that error; the subprocess outcome is consulted
/// only after a successful write.
pub open spec fn run_spec(
    path: Option<Seq<char>>,
    root: Seq<char>,
    root_exists: bool,
    write_result: Result<(), Seq<char>>,
    o: ProcessOutcomeSpec,
) -> Result<Seq<char>, CompileErrorSpec> {
    match resolve_spec(path, root, root_exists) {
        Err(m) => Err(CompileErrorSpec::Configuration(m)),
        Ok((abs, dir, name)) => match write_result {
            Err(e) => Err(CompileErrorSpec::Io(e)),
            Ok(u) => classify_spec(abs, o),
        },
    }
}

/// The stage a compile run has reached.
pub enum CompilePhase {
    /// The target is resolved; the host must now write the editor content to
    /// `target.absolute_path`.
    Persist { target: WorkspaceTarget },
    /// The document is persisted; the host must now run the compiler with
    /// [`compiler_args`] inside `target.working_directory`.
    Invoke { target: WorkspaceTarget },
    /// The run is over.
    Finished { result: Result<String, CompileError> },
}

/// Begin a compile run by resolving the target document.
pub fn start_compile(tex_path: Option<String>, fallback_root: &str, root_exists: bool) -> (r:
    CompilePhase)
    ensures
        match resolve_spec(opt_view(tex_path), fallback_root@, root_exists) {
            Ok((abs, dir, name)) => r matches CompilePhase::Persist { target }
                && target.absolute_path@ == abs && target.working_directory@ == dir
                && target.file_name@ == name && target.wf(),
            Err(m) => r matches CompilePhase::Finished { result } && (result matches Err(e)
                && error_matches(CompileErrorSpec::Configuration(m), e)),
        },
{
    match resolve(tex_path, fallback_root, root_exists) {
        Ok(target) => CompilePhase::Persist { target },
        Err(WorkspaceError::Configuration { message }) => CompilePhase::Finished {
            result: Err(CompileError::Configuration { message }),
        },
    }
}

/// Advance past the persist step: only a successful write of the document
/// reaches the invoke stage, and it carries the identical target; a failed
/// write ends the run with that error and no compile is attempted.
pub fn on_persisted(target: WorkspaceTarget, write_result: Result<(), String>) -> (r: CompilePhase)
    ensures
        write_result is Ok ==> (r matches CompilePhase::Invoke { target: t } && t == target),
        write_result matches Err(e) ==> (r matches CompilePhase::Finished { result } && (
        result matches Err(re) && error_matches(CompileErrorSpec::Io(e@), re))),
{
    match write_result {
        Ok(u) => CompilePhase::Invoke { target },
        Err(message) => CompilePhase::Finished { result: Err(CompileError::Io { message }) },
    }
}

/// The fixed argument vector handed to the compiler subprocess: `compile`
/// followed by the bare file name, relative to the working directory, so the
/// compiler resolves its own includes as if run inside that folder.
pub fn compiler_args(target: &WorkspaceTarget) -> (r: Vec<String>)
    ensures
        r@.len() == 2,
        r@[0]@ == "compile"@,
        r@[1]@ == target.file_name@,
{
    let mut v: Vec<String> = Vec::new();
    v.push(String::from_str("compile"));
    v.push(target.file_name.clone());
    v
}

/// Classify the subprocess outcome of a run whose document was persisted.
pub fn on_process_done(target: &WorkspaceTarget, outcome: ProcessOutcome) -> (r: Result<
    String,
    CompileError,
>)
    ensures
        result_matches(classify_spec(target.absolute_path@, outcome_view(outcome)), r),
{
    match outcome {
        ProcessOutcome::SpawnRefused { message } => {
            let mut full = String::from_str("Failed to create sidecar: ");
            full.append(message.as_str());
            Err(CompileError::ToolUnavailable { message: full })
        },
        ProcessOutcome::ExecutionFailed { message } => {
            let mut full = String::from_str("Tectonic execution error: ");
            full.append(message.as_str());
            Err(CompileError::ToolUnavailable { message: full })
        },
        ProcessOutcome::Exited { success, stderr } => {
            if success {
                Ok(swap_extension(target.absolute_path.as_str(), "pdf"))
            } else {
                Err(CompileError::CompileFailure { diagnostics: stderr })
            }
        },
    }
}

/// A run whose document write failed finishes with that write's error: the
/// subprocess outcome is never consulted, so any two observations — such as
/// those of two host-serialized runs racing on the same path — leave the
/// failed run's result identical. Each serialized run's invocation therefore
/// rests only on its own completed write.
pub proof fn lemma_write_gates_process(
    path: Option<Seq<char>>,
    root: Seq<char>,
    root_exists: bool,
    e: Seq<char>,
    o1: ProcessOutcomeSpec,
    o2: ProcessOutcomeSpec,
)
    ensures
        run_spec(path, root, root_exists, Err(e), o1) == run_spec(path, root, root_exists, Err(e), o2),
        resolve_spec(path, root, root_exists) is Ok ==> run_spec(path, root, root_exists, Err(e), o1)
            == Err::<Seq<char>, CompileErrorSpec>(CompileErrorSpec::Io(e)),
{
}

} // verus!
