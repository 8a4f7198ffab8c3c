use texdesk::assistant::AssistantError;
use texdesk::assistant::ChatOutcome;
use texdesk::assistant::Message;
use texdesk::assistant::OllamaModelTag;
use texdesk::assistant::TagsOutcome;
use texdesk::assistant::build_chat_request;
use texdesk::assistant::extract_model_names;
use texdesk::assistant::interpret_chat;
use texdesk::assistant::interpret_tags;
use texdesk::assistant::is_success_status;
use texdesk::prompts::ask_messages;
use texdesk::prompts::continue_prompt;
use texdesk::prompts::fix_error_prompt;
use texdesk::prompts::formula_prompt;
use texdesk::prompts::system_prompt;

#[test]
fn chat_reply_is_sanitized_before_reaching_the_caller() {
    let r = interpret_chat(ChatOutcome::Reply {
        content: "<think>let me see</think>```latex\n\\sum_i x_i\n```".to_string(),
    });
    assert_eq!(r.unwrap(), "\\sum_i x_i");
}

#[test]
fn transport_failure_is_backend_unreachable() {
    let r = interpret_chat(ChatOutcome::TransportFailed {
        message: "connection refused".to_string(),
    });
    match r {
        Err(AssistantError::BackendUnreachable { message }) => {
            assert_eq!(message, "Failed to connect to Ollama: connection refused");
        },
        _ => panic!("expected backend unreachability"),
    }
}

#[test]
fn non_success_status_is_backend_error() {
    match interpret_chat(ChatOutcome::HttpError { status: 500 }) {
        Err(AssistantError::BackendError { status }) => assert_eq!(status, 500),
        _ => panic!("expected a backend error"),
    }
}

#[test]
fn malformed_body_is_protocol_error_not_empty_reply() {
    match interpret_chat(ChatOutcome::BodyUnparsable { message: "missing field".to_string() }) {
        Err(AssistantError::Protocol { message }) => assert_eq!(message, "missing field"),
        _ => panic!("expected a protocol error"),
    }
}

#[test]
fn chat_request_is_never_streamed() {
    let messages = ask_messages("prove it".to_string());
    let req = build_chat_request("gemma3:12b".to_string(), messages);
    assert_eq!(req.model, "gemma3:12b");
    assert!(!req.stream);
    assert_eq!(req.messages.len(), 2);
}

#[test]
fn success_statuses_are_the_two_hundreds() {
    assert!(is_success_status(200));
    assert!(is_success_status(204));
    assert!(is_success_status(299));
    assert!(!is_success_status(199));
    assert!(!is_success_status(300));
    assert!(!is_success_status(404));
}

#[test]
fn model_names_keep_server_order() {
    let tags = vec![
        OllamaModelTag { name: "gemma3:12b".to_string() },
        OllamaModelTag { name: "llama3:8b".to_string() },
        OllamaModelTag { name: "qwen2:7b".to_string() },
    ];
    assert_eq!(
        extract_model_names(tags),
        vec!["gemma3:12b", "llama3:8b", "qwen2:7b"]
    );
}

#[test]
fn tags_outcomes_share_the_failure_taxonomy() {
    match interpret_tags(TagsOutcome::HttpError { status: 503 }) {
        Err(AssistantError::BackendError { status }) => assert_eq!(status, 503),
        _ => panic!("expected a backend error"),
    }
    let names = interpret_tags(TagsOutcome::Models {
        tags: vec![OllamaModelTag { name: "m".to_string() }],
    })
    .unwrap();
    assert_eq!(names, vec!["m"]);
}

#[test]
fn ask_messages_pair_system_then_user() {
    let messages = ask_messages("do the thing".to_string());
    assert_eq!(messages[0].role, "system");
    assert_eq!(messages[0].content, system_prompt());
    assert_eq!(messages[1].role, "user");
    assert_eq!(messages[1].content, "do the thing");
}

#[test]
fn fix_error_prompt_embeds_diagnostic_then_code() {
    let p = fix_error_prompt("\\frac{1}{", "! Missing } inserted.");
    assert_eq!(
        p,
        "Fix this LaTeX compile error.\nError: ! Missing } inserted.\n\nCode:\n\\frac{1}{\nOutput ONLY raw LaTeX. No markdown fences, no explanations unless asked."
    );
}

#[test]
fn formula_prompt_embeds_free_text() {
    assert_eq!(
        formula_prompt("half of x"),
        "Convert the text into latex formula. Only output the latex expression. \nhalf of x"
    );
}

#[test]
fn continue_prompt_embeds_prefix() {
    assert_eq!(
        continue_prompt("\\begin{proof}"),
        "Continue this LaTeX snippet. Output only the continuation, not the original:\n\\begin{proof}"
    );
}

#[test]
fn message_struct_round_trips_fields() {
    let m = Message { role: "user".to_string(), content: "hi".to_string() };
    assert_eq!(m.role, "user");
    assert_eq!(m.content, "hi");
}
