use texdesk::sanitize::clean_output;

#[test]
fn strips_think_block_before_text() {
    assert_eq!(clean_output("<think>abc</think>Hello"), "Hello");
}

#[test]
fn strips_latex_fence_pair() {
    assert_eq!(clean_output("```latex\nfoo\n```"), "foo");
}

#[test]
fn strips_tex_fence_pair() {
    assert_eq!(clean_output("```tex\nx + y\n```"), "x + y");
}

#[test]
fn strips_bare_fence_pair() {
    assert_eq!(clean_output("```\n\\alpha\n```"), "\\alpha");
}

#[test]
fn plain_text_is_unchanged() {
    assert_eq!(clean_output("Hello, LaTeX."), "Hello, LaTeX.");
}

#[test]
fn trims_surrounding_whitespace() {
    assert_eq!(clean_output("  \n  x = 1  \t"), "x = 1");
}

#[test]
fn strips_several_think_blocks() {
    assert_eq!(clean_output("<think>a</think>x<think>b</think>y"), "xy");
}

#[test]
fn think_block_spans_line_breaks() {
    assert_eq!(clean_output("<think>first\nsecond</think>ok"), "ok");
}

#[test]
fn unanswered_open_marker_is_kept() {
    assert_eq!(clean_output("<think>abc"), "<think>abc");
}

#[test]
fn stray_close_marker_is_kept() {
    assert_eq!(clean_output("abc</think>def"), "abc</think>def");
}

#[test]
fn nearest_close_marker_wins() {
    // Non-greedy: the block ends at the first closing marker.
    assert_eq!(clean_output("<think>a</think>keep</think>"), "keep</think>");
}

#[test]
fn think_block_then_fence() {
    assert_eq!(clean_output("<think>hidden</think>\n```latex\nE=mc^2\n```"), "E=mc^2");
}

#[test]
fn lone_trailing_fence_is_stripped() {
    assert_eq!(clean_output("foo```"), "foo");
}

#[test]
fn multibyte_text_survives_sanitization() {
    assert_eq!(clean_output("<think>思考中…</think> héllo ∑ "), "héllo ∑");
}

#[test]
fn empty_input_stays_empty() {
    assert_eq!(clean_output(""), "");
}

#[test]
fn fence_only_input_becomes_empty() {
    assert_eq!(clean_output("``````"), "");
}

#[test]
fn sanitize_is_idempotent_on_fenced_reply() {
    let once = clean_output("<think>plan</think>```latex\n\\frac{1}{2}\n```");
    let twice = clean_output(&once);
    assert_eq!(twice, once);
    assert_eq!(once, "\\frac{1}{2}");
}

#[test]
fn sanitize_is_idempotent_on_plain_reply() {
    let once = clean_output("  \\item one  ");
    let twice = clean_output(&once);
    assert_eq!(twice, once);
}
