use aido::fence::{strip_markdown_code_block, trim_spaces};

#[test]
fn parse_claude_output() {
    let s = r#"
            ```json
           {
             "bashCommand": "ls | awk '{print $0}'",
             "comment": "If you want all files including hidden ones, use: ls -a | awk '{print $0}'. For just filenames from ls -l, use: ls -l | awk 'NR>1 {print $NF}'"
           }
           ```
    "#.to_string();

    let stripped_output = strip_markdown_code_block(s);
    let value: serde_json::Value = serde_json::from_str(&stripped_output).unwrap();
    assert_eq!(value["bashCommand"], "ls | awk '{print $0}'");
}

#[test]
fn fenced_reply_with_language_tag() {
    let s = "Here you go:\n```json\n{\"bashCommand\": \"ls\", \"shortExplanation\": \"lists\"}\n```\nbye".to_string();
    let out = strip_markdown_code_block(s);
    assert_eq!(out, "{\"bashCommand\": \"ls\", \"shortExplanation\": \"lists\"}");
    let value: serde_json::Value = serde_json::from_str(&out).unwrap();
    assert_eq!(value["shortExplanation"], "lists");
}

#[test]
fn unfenced_reply_is_kept() {
    let s = "  {\"bashCommand\": \"ls\"}\n".to_string();
    assert_eq!(strip_markdown_code_block(s.clone()), s);
}

#[test]
fn unclosed_fence_is_kept() {
    let s = "```json\n{}\n".to_string();
    assert_eq!(strip_markdown_code_block(s.clone()), s);
}

#[test]
fn first_block_is_taken() {
    let s = "```\n a \n```\n```\nb\n```".to_string();
    assert_eq!(strip_markdown_code_block(s), "a");
}

#[test]
fn empty_body() {
    assert_eq!(strip_markdown_code_block("```\n\n```".to_string()), "");
}

#[test]
fn trim_unicode_spaces() {
    assert_eq!(trim_spaces(" \t\u{a0}x y\u{3000}\n"), "x y");
    assert_eq!(trim_spaces(" \n "), "");
    assert_eq!(trim_spaces(""), "");
}
