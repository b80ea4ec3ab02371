use dsondt::chat::{
    build_chat_messages, classify_line, request_options, title_after_message, SseLine, StreamReader, StreamStatus,
};
use dsondt::records::{Conversation, Message};

fn conv(id: i64, title: &str) -> Conversation {
    Conversation { id, title: title.to_string(), created_at: 0, updated_at: 0 }
}

fn msg(role: &str, content: &str) -> Message {
    Message { id: 1, conversation_id: 1, role: role.to_string(), content: content.to_string(), created_at: 0 }
}

fn chars(s: &str) -> Vec<char> {
    s.chars().collect()
}

#[test]
fn new_conversation_is_titled_after_first_message() {
    let convs = vec![conv(1, "别的"), conv(2, "新对话")];
    assert_eq!(title_after_message(&convs, 2, "short"), Some("short".to_string()));
    let long = "一二三四五六七八九十一二三四五六七八九十XYZ";
    assert_eq!(title_after_message(&convs, 2, long), Some("一二三四五六七八九十一二三四五六七八九十".to_string()));
    assert_eq!(title_after_message(&convs, 1, "x"), None);
    assert_eq!(title_after_message(&convs, 3, "x"), None);
}

#[test]
fn message_list_skips_repeated_user_message() {
    let history = vec![msg("assistant", "a"), msg("user", "q")];
    let out = build_chat_messages("sys", &history, "q");
    let got: Vec<(String, String)> = out.into_iter().map(|m| (m.role, m.content)).collect();
    assert_eq!(
        got,
        vec![
            ("system".to_string(), "sys".to_string()),
            ("assistant".to_string(), "a".to_string()),
            ("user".to_string(), "q".to_string()),
        ]
    );
    let out = build_chat_messages("sys", &history, "other");
    assert_eq!(out.len(), 4);
    assert_eq!(out[3].content, "other");
    assert_eq!(build_chat_messages("s", &vec![], "q").len(), 2);
}

#[test]
fn sse_lines_are_classified() {
    assert!(matches!(classify_line(&chars("  data: [DONE] ")), SseLine::Done));
    assert!(matches!(classify_line(&chars(": keep-alive")), SseLine::Skip));
    match classify_line(&chars("data:data: {\"a\":1} ")) {
        SseLine::Data(d) => assert_eq!(d, "{\"a\":1}"),
        _ => panic!("expected data"),
    }
}

#[test]
fn stream_reader_collects_answer_and_tokens() {
    let mut r = StreamReader::new();
    let text = "data: {\"choices\":[{\"delta\":{\"reasoning_content\":\"think\"}}]}\n\
                data: {\"choices\":[{\"delta\":{\"content\":\"Hel\"}}]}\r\n\
                \n\
                data: not json\n\
                data: {\"choices\":[{\"delta\":{\"content\":\"lo\"}}]}\n";
    let out = r.feed(text);
    assert!(matches!(out.status, StreamStatus::Continue));
    assert_eq!(
        out.messages,
        vec![
            "{\"t\":\"reasoning\",\"c\":\"think\"}".to_string(),
            "{\"t\":\"answer\",\"c\":\"Hel\"}".to_string(),
            "{\"t\":\"answer\",\"c\":\"lo\"}".to_string(),
        ]
    );
    assert_eq!(r.answer, "Hello");
    let out = r.feed("data: [DONE]\ndata: {\"choices\":[{\"delta\":{\"content\":\"x\"}}]}\n");
    match out.status {
        StreamStatus::Done(full) => assert_eq!(full, "Hello"),
        _ => panic!("expected done"),
    }
    assert!(out.messages.is_empty());
}

#[test]
fn stream_reader_reports_errors() {
    let mut r = StreamReader::new();
    let out = r.feed("data: {\"choices\":[{\"delta\":{\"content\":\"a\"}}]}\ndata: {\"error\":{\"message\":\"bad\"}}\n");
    assert_eq!(out.messages.len(), 1);
    match out.status {
        StreamStatus::Failed(e) => assert_eq!(e, "流式错误: {\"message\":\"bad\"}"),
        _ => panic!("expected failure"),
    }
}

#[test]
fn token_text_is_escaped() {
    let mut r = StreamReader::new();
    let out = r.feed("data: {\"choices\":[{\"delta\":{\"content\":\"a\\\"b\\n\"}}]}");
    assert_eq!(out.messages, vec!["{\"t\":\"answer\",\"c\":\"a\\\"b\\n\"}".to_string()]);
    assert_eq!(r.answer, "a\"b\n");
}

#[test]
fn request_options_follow_thinking() {
    let on = request_options(true);
    assert!(on.stream && !on.set_temperature);
    assert_eq!(on.thinking_type, Some("enabled".to_string()));
    assert_eq!(on.reasoning_effort, Some("high".to_string()));
    let off = request_options(false);
    assert!(off.stream && off.set_temperature);
    assert_eq!(off.thinking_type, None);
    assert_eq!(off.reasoning_effort, None);
}
