//! Assistant-client decisions. The host performs the HTTP exchange with the
//! LLM backend and reports what it observed; this module fixes the request
//! shape (never streamed), the status taxonomy, and the sanitization of
//! every successful reply before it reaches the caller.

use vstd::prelude::*;
use vstd::string::StringExecFns;

use crate::sanitize::clean_output;
use crate::sanitize::sanitize_spec;

verus! {

/// One chat message of a stateless, single-turn request.
pub struct Message {
    pub role: String,
    pub content: String,
}

/// The chat request body: the model, the ordered messages, and never a
/// token-by-token stream — the orchestrator consumes one complete reply.
pub struct OllamaRequest {
    pub model: String,
    pub messages: Vec<Message>,
    pub stream: bool,
}

/// Compose the chat request body for the given model and messages.
pub fn build_chat_request(model: String, messages: Vec<Message>) -> (r: OllamaRequest)
    ensures
        r.model == model,
        r.messages == messages,
        r.stream == false,
{
    OllamaRequest { model, messages, stream: false }
}

/// Whether an HTTP status counts as success.
pub fn is_success_status(status: u16) -> (r: bool)
    ensures
        r == (200 <= status < 300),
{
    200 <= status && status < 300
}

/// What the host observed of one chat exchange.
pub enum ChatOutcome {
    /// The request never reached the backend (connection refused, timeout).
    TransportFailed { message: String },
    /// The backend answered with a non-success status.
    HttpError { status: u16 },
    /// A success answer whose body did not hold the reply field.
    BodyUnparsable { message: String },
    /// The assistant's raw reply text, extracted from a success answer.
    Reply { content: String },
}

/// How an assistant call fails.
#[derive(Debug)]
pub enum AssistantError {
    /// Transport failure; the underlying error text is preserved.
    BackendUnreachable { message: String },
    /// The backend answered, but with this non-success status.
    BackendError { status: u16 },
    /// The backend's body was malformed; never treated as an empty reply.
    Protocol { message: String },
}

/// Message reported when the backend cannot be reached.
pub open spec fn unreachable_message(m: Seq<char>) -> Seq<char> {
    "Failed to connect to Ollama: "@ + m
}

/// Interpret one chat exchange: each observation maps to exactly one
/// result, and a successful reply is sanitized before it reaches the
/// caller.
pub fn interpret_chat(outcome: ChatOutcome) -> (r: Result<String, AssistantError>)
    ensures
        match outcome {
            ChatOutcome::TransportFailed { message } => r matches Err(
                AssistantError::BackendUnreachable { message: m },
            ) && m@ == unreachable_message(message@),
            ChatOutcome::HttpError { status } => r matches Err(
                AssistantError::BackendError { status: s },
            ) && s == status,
            ChatOutcome::BodyUnparsable { message } => r matches Err(
                AssistantError::Protocol { message: m },
            ) && m@ == message@,
            ChatOutcome::Reply { content } => r matches Ok(t) && t@ == sanitize_spec(content@),
        },
{
    match outcome {
        ChatOutcome::TransportFailed { message } => {
            let mut full = String::from_str("Failed to connect to Ollama: ");
            full.append(message.as_str());
            Err(AssistantError::BackendUnreachable { message: full })
        },
        ChatOutcome::HttpError { status } => Err(AssistantError::BackendError { status }),
        ChatOutcome::BodyUnparsable { message } => Err(AssistantError::Protocol { message }),
        ChatOutcome::Reply { content } => Ok(clean_output(content.as_str())),
    }
}

/// One entry of the backend's model catalogue.
pub struct OllamaModelTag {
    pub name: String,
}

/// What the host observed of one catalogue request.
pub enum TagsOutcome {
    /// The request never reached the backend.
    TransportFailed { message: String },
    /// The backend answered with a non-success status.
    HttpError { status: u16 },
    /// A success answer whose body did not hold the catalogue.
    BodyUnparsable { message: String },
    /// The catalogue entries, in server order.
    Models { tags: Vec<OllamaModelTag> },
}

/// Just the name of each catalogue entry, in the server-given order.
pub fn extract_model_names(tags: Vec<OllamaModelTag>) -> (r: Vec<String>)
    ensures
        r@.len() == tags@.len(),
        forall|i: int| 0 <= i < tags@.len() ==> r@[i]@ == tags@[i].name@,
{
    let mut names: Vec<String> = Vec::new();
    let mut i: usize = 0;
    while i < tags.len()
        invariant
            0 <= i <= tags@.len(),
            names@.len() == i,
            forall|k: int| 0 <= k < i ==> names@[k]@ == tags@[k].name@,
        decreases tags@.len() - i,
    {
        names.push(tags[i].name.clone());
        i = i + 1;
    }
    names
}

/// Interpret one catalogue exchange, with the same failure taxonomy as the
/// chat endpoint.
pub fn interpret_tags(outcome: TagsOutcome) -> (r: Result<Vec<String>, AssistantError>)
    ensures
        match outcome {
            TagsOutcome::TransportFailed { message } => r matches Err(
                AssistantError::BackendUnreachable { message: m },
            ) && m@ == message@,
            TagsOutcome::HttpError { status } => r matches Err(
                AssistantError::BackendError { status: s },
            ) && s == status,
            TagsOutcome::BodyUnparsable { message } => r matches Err(
                AssistantError::Protocol { message: m },
            ) && m@ == message@,
            TagsOutcome::Models { tags } => r matches Ok(names) && names@.len() == tags@.len() && (
            forall|i: int| 0 <= i < tags@.len() ==> names@[i]@ == tags@[i].name@),
        },
{
    match outcome {
        TagsOutcome::TransportFailed { message } => Err(
            AssistantError::BackendUnreachable { message },
        ),
        TagsOutcome::HttpError { status } => Err(AssistantError::BackendError { status }),
        TagsOutcome::BodyUnparsable { message } => Err(AssistantError::Protocol { message }),
        TagsOutcome::Models { tags } => Ok(extract_model_names(tags)),
    }
}

} // verus!
