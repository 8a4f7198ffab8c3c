//! Document persistence decisions. The host performs the actual filesystem
//! reads and writes and reports how they went; this module fixes what each
//! outcome means: a missing primary document becomes the default template,
//! any other failure propagates, and binary artifacts are base64-encoded for
//! text transport.

use vstd::prelude::*;
use vstd::string::StringExecFns;

use crate::textutil::is_blank;
use crate::textutil::is_blank_str;
use crate::workspace::fallback_name;
use crate::workspace::join_path;
use crate::workspace::join_spec;

verus! {

/// How the host's read of a file ended.
pub enum ReadOutcome {
    /// The file was read in full.
    Content { text: String },
    /// The file does not exist.
    NotFound,
    /// Any other read failure, with the underlying message.
    Failed { message: String },
}

/// How a store operation fails.
#[derive(Debug)]
pub enum StoreError {
    /// The file does not exist.
    NotFound,
    /// Any other filesystem failure, with the underlying message.
    Io { message: String },
}

/// The boilerplate document served when the workspace holds no document yet.
pub open spec fn default_tex_spec() -> Seq<char> {
    "\\documentclass{article}\n\\begin{document}\nHello, LaTeX.\n\\end{document}\n"@
}

/// The default document template.
pub fn default_tex() -> (r: String)
    ensures
        r@ == default_tex_spec(),
{
    String::from_str(
        "\\documentclass{article}\n\\begin{document}\nHello, LaTeX.\n\\end{document}\n",
    )
}

/// Interpret a read of an arbitrary file: absence is a failure here.
pub fn read_text(outcome: ReadOutcome) -> (r: Result<String, StoreError>)
    ensures
        match outcome {
            ReadOutcome::Content { text } => r matches Ok(t) && t@ == text@,
            ReadOutcome::NotFound => r matches Err(e) && e is NotFound,
            ReadOutcome::Failed { message } => r matches Err(e) && (e matches StoreError::Io {
                message: m,
            } && m@ == message@),
        },
{
    match outcome {
        ReadOutcome::Content { text } => Ok(text),
        ReadOutcome::NotFound => Err(StoreError::NotFound),
        ReadOutcome::Failed { message } => Err(StoreError::Io { message }),
    }
}

/// Interpret a read of the primary document: absence alone is recovered into
/// the default template — a brand-new workspace legitimately has no document
/// yet — while any other failure still propagates.
pub fn read_text_or_default(outcome: ReadOutcome) -> (r: Result<String, StoreError>)
    ensures
        match outcome {
            ReadOutcome::Content { text } => r matches Ok(t) && t@ == text@,
            ReadOutcome::NotFound => r matches Ok(t) && t@ == default_tex_spec(),
            ReadOutcome::Failed { message } => r matches Err(e) && (e matches StoreError::Io {
                message: m,
            } && m@ == message@),
        },
{
    match outcome {
        ReadOutcome::Content { text } => Ok(text),
        ReadOutcome::NotFound => Ok(default_tex()),
        ReadOutcome::Failed { message } => Err(StoreError::Io { message }),
    }
}

/// What opening the workspace document yields: its content, and — only when
/// the document already exists on disk — its path and workspace directory,
/// so the frontend can compile immediately on first open.
pub struct ReadTexResult {
    pub content: String,
    pub tex_path: Option<String>,
    pub workspace_dir: Option<String>,
}

/// Interpret the read of the primary document at `dir/main.tex`.
pub fn read_tex(dir: &str, outcome: ReadOutcome) -> (r: Result<ReadTexResult, StoreError>)
    ensures
        match outcome {
            ReadOutcome::Content { text } => r matches Ok(t) && {
                &&& t.content@ == text@
                &&& t.tex_path matches Some(p) && p@ == join_spec(dir@, fallback_name())
                &&& t.workspace_dir matches Some(d) && d@ == dir@
            },
            ReadOutcome::NotFound => r matches Ok(t) && {
                &&& t.content@ == default_tex_spec()
                &&& t.tex_path is None
                &&& t.workspace_dir is None
            },
            ReadOutcome::Failed { message } => r matches Err(e) && (e matches StoreError::Io {
                message: m,
            } && m@ == message@),
        },
{
    match outcome {
        ReadOutcome::Content { text } => Ok(
            ReadTexResult {
                content: text,
                tex_path: Some(join_path(dir, "main.tex")),
                workspace_dir: Some(String::from_str(dir)),
            },
        ),
        ReadOutcome::NotFound => Ok(
            ReadTexResult { content: default_tex(), tex_path: None, workspace_dir: None },
        ),
        ReadOutcome::Failed { message } => Err(StoreError::Io { message }),
    }
}

/// The PDF to display: the requested path when one was given, otherwise the
/// workspace's own compiled artifact.
pub fn resolve_pdf_path(requested: &str, workspace_dir: &str) -> (r: String)
    ensures
        is_blank(requested@) ==> r@ == join_spec(workspace_dir@, "main.pdf"@),
        !is_blank(requested@) ==> r@ == requested@,
{
    if is_blank_str(requested) {
        join_path(workspace_dir, "main.pdf")
    } else {
        String::from_str(requested)
    }
}

/// Where an imported PDF lands inside the workspace.
pub fn uploaded_pdf_path(workspace_dir: &str) -> (r: String)
    ensures
        r@ == join_spec(workspace_dir@, "uploaded.pdf"@),
{
    join_path(workspace_dir, "uploaded.pdf")
}

/// The error reported when the binary artifact cannot be read.
pub fn pdf_read_error(message: &str) -> (r: String)
    ensures
        r@ == "Cannot read pdf: "@ + message@,
{
    let mut full = String::from_str("Cannot read pdf: ");
    full.append(message);
    full
}

/// The base64 text of a byte sequence under the standard alphabet with
/// padding, as base64's `STANDARD` engine produces it.
pub uninterp spec fn base64_of(bytes: Seq<u8>) -> Seq<char>;

/// Relies on base64's `Engine::encode` with the `STANDARD` engine: the
/// encoding is a pure function of the input bytes, and the padded output
/// holds four characters for every started three-byte group.
#[verifier::external_body]
fn encode_standard(bytes: &Vec<u8>) -> (r: String)
    requires
        4 * ((bytes@.len() + 2) / 3) <= usize::MAX,
    ensures
        r@ == base64_of(bytes@),
        r@.len() == 4 * ((bytes@.len() + 2) / 3),
{
    base64::Engine::encode(&base64::engine::general_purpose::STANDARD, bytes.as_slice())
}

/// Encode a binary artifact (the compiled PDF) for text transport.
pub fn encode_pdf_base64(bytes: &Vec<u8>) -> (r: String)
    requires
        4 * ((bytes@.len() + 2) / 3) <= usize::MAX,
    ensures
        r@ == base64_of(bytes@),
        r@.len() == 4 * ((bytes@.len() + 2) / 3),
{
    encode_standard(bytes)
}

} // verus!
