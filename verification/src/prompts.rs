//! The three fixed prompt shapes every assistant feature is built from:
//! fix a compile error, turn text into a formula, continue a snippet. Each
//! composes into a two-message chat whose system instruction constrains the
//! output to raw document text.

use vstd::prelude::*;
use vstd::string::StringExecFns;

use crate::assistant::Message;

verus! {

/// The fixed system instruction of every assistant request.
pub open spec fn system_prompt_spec() -> Seq<char> {
    "You are a LaTeX assistant. Output ONLY raw LaTeX. No markdown fences, no explanations unless asked."@
}

/// The fixed system instruction of every assistant request.
pub fn system_prompt() -> (r: String)
    ensures
        r@ == system_prompt_spec(),
{
    String::from_str(
        "You are a LaTeX assistant. Output ONLY raw LaTeX. No markdown fences, no explanations unless asked.",
    )
}

/// The fix-error user prompt: the diagnostic, then the failing snippet,
/// asking for a corrected snippet only.
pub open spec fn fix_error_prompt_spec(error_msg: Seq<char>, snippet: Seq<char>) -> Seq<char> {
    "Fix this LaTeX compile error.\nError: "@ + error_msg + "\n\nCode:\n"@ + snippet
        + "\nOutput ONLY raw LaTeX. No markdown fences, no explanations unless asked."@
}

/// Compose the fix-error user prompt.
pub fn fix_error_prompt(snippet: &str, error_msg: &str) -> (r: String)
    ensures
        r@ == fix_error_prompt_spec(error_msg@, snippet@),
{
    let mut out = String::from_str("Fix this LaTeX compile error.\nError: ");
    out.append(error_msg);
    out.append("\n\nCode:\n");
    out.append(snippet);
    out.append("\nOutput ONLY raw LaTeX. No markdown fences, no explanations unless asked.");
    out
}

/// The text-to-formula user prompt: free text, asking for the equivalent
/// formula only.
pub open spec fn formula_prompt_spec(snippet: Seq<char>) -> Seq<char> {
    "Convert the text into latex formula. Only output the latex expression. \n"@ + snippet
}

/// Compose the text-to-formula user prompt.
pub fn formula_prompt(snippet: &str) -> (r: String)
    ensures
        r@ == formula_prompt_spec(snippet@),
{
    let mut out = String::from_str(
        "Convert the text into latex formula. Only output the latex expression. \n",
    );
    out.append(snippet);
    out
}

/// The continuation user prompt: a prefix, asking for the continuation
/// only, not a repetition of the prefix.
pub open spec fn continue_prompt_spec(prefix: Seq<char>) -> Seq<char> {
    "Continue this LaTeX snippet. Output only the continuation, not the original:\n"@ + prefix
}

/// Compose the continuation user prompt.
pub fn continue_prompt(prefix: &str) -> (r: String)
    ensures
        r@ == continue_prompt_spec(prefix@),
{
    let mut out = String::from_str(
        "Continue this LaTeX snippet. Output only the continuation, not the original:\n",
    );
    out.append(prefix);
    out
}

/// The two-message chat every assistant feature sends: the fixed system
/// instruction plus the composed user prompt, in that order.
pub fn ask_messages(prompt: String) -> (r: Vec<Message>)
    ensures
        r@.len() == 2,
        r@[0].role@ == "system"@,
        r@[0].content@ == system_prompt_spec(),
        r@[1].role@ == "user"@,
        r@[1].content@ == prompt@,
{
    let mut messages: Vec<Message> = Vec::new();
    messages.push(Message { role: String::from_str("system"), content: system_prompt() });
    messages.push(Message { role: String::from_str("user"), content: prompt });
    messages
}

} // verus!
