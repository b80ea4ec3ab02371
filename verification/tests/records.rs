use dsondt::records::{
    conversation_title, export_json, import_plan, memories_json, new_conversation, new_message,
    now, plan_import, timestamp_from, ImportDoc, ImportError, ImportedMessage, MemoryRow, Message,
};
use serde_json::Value;

fn msg(id: i64, role: &str, content: &str) -> Message {
    Message { id, conversation_id: 7, role: role.to_string(), content: content.to_string(), created_at: -3 }
}

fn object(pairs: Vec<(&str, Value)>) -> Value {
    let mut m = serde_json::Map::new();
    for (k, v) in pairs {
        m.insert(k.to_string(), v);
    }
    Value::Object(m)
}

#[test]
fn conversation_title_defaults() {
    assert_eq!(conversation_title(None), "新对话");
    assert_eq!(conversation_title(Some("x".to_string())), "x");
    let c = new_conversation(3, "t".to_string(), 99);
    assert_eq!((c.id, c.title.as_str(), c.created_at, c.updated_at), (3, "t", 99, 99));
    let m = new_message(4, 3, "user", "hi", 5);
    assert_eq!((m.id, m.conversation_id, m.role.as_str(), m.content.as_str(), m.created_at), (4, 3, "user", "hi", 5));
}

#[test]
fn clock_readings() {
    assert_eq!(timestamp_from(Some(1_700_000_000)), 1_700_000_000);
    assert_eq!(timestamp_from(None), 0);
    assert!(now() > 1_600_000_000);
}

#[test]
fn export_matches_serde_json() {
    let messages = vec![msg(1, "user", "你好 \"quoted\"\n"), msg(2, "assistant", "hi")];
    let text = export_json("标题", 1_700_000_000, &messages);
    let mut list = Vec::new();
    for m in &messages {
        list.push(object(vec![
            ("id", Value::from(m.id)),
            ("conversation_id", Value::from(m.conversation_id)),
            ("role", Value::from(m.role.clone())),
            ("content", Value::from(m.content.clone())),
            ("created_at", Value::from(m.created_at)),
        ]));
    }
    let expected = object(vec![
        ("title", Value::from("标题")),
        ("exported_at", Value::from(1_700_000_000i64)),
        ("messages", Value::Array(list)),
    ]);
    assert_eq!(text, serde_json::to_string(&expected).unwrap());
}

#[test]
fn export_of_empty_conversation() {
    assert_eq!(export_json("t", 0, &vec![]), "{\"exported_at\":0,\"messages\":[],\"title\":\"t\"}");
    assert!(export_json("t", i64::MIN, &vec![]).contains("-9223372036854775808"));
}

#[test]
fn memories_snapshot_matches_serde_json() {
    let rows = vec![
        MemoryRow { id: 1, content: "喜欢猫".to_string(), origin: "web".to_string(), created_at: 0, updated_at: 0 },
        MemoryRow { id: 2, content: "a\"b".to_string(), origin: "auto".to_string(), created_at: 0, updated_at: 0 },
    ];
    let expected: Vec<Value> = rows
        .iter()
        .map(|m| object(vec![("content", Value::from(m.content.clone())), ("origin", Value::from(m.origin.clone()))]))
        .collect();
    assert_eq!(memories_json(&rows), serde_json::to_string(&expected).unwrap());
    assert_eq!(memories_json(&vec![]), "[]");
}

#[test]
fn import_reads_title_and_messages() {
    let plan = import_plan(
        r#"{"title":"T","messages":[{"role":"assistant","content":"a"},{"content":"b"},{"role":"user","content":""},{"role":5,"content":"c"}]}"#,
    )
    .unwrap();
    assert_eq!(plan.title, "T");
    assert!(plan.touch);
    let got: Vec<(String, String)> = plan.messages.into_iter().map(|e| (e.role, e.content)).collect();
    assert_eq!(
        got,
        vec![
            ("assistant".to_string(), "a".to_string()),
            ("user".to_string(), "b".to_string()),
            ("user".to_string(), "c".to_string()),
        ]
    );
}

#[test]
fn import_defaults() {
    let plan = import_plan(r#"{"messages":"not an array","title":3}"#).unwrap();
    assert_eq!(plan.title, "导入的对话");
    assert!(!plan.touch);
    assert!(plan.messages.is_empty());
    let plan = import_plan(r#"{"messages":[]}"#).unwrap();
    assert!(plan.touch);
}

#[test]
fn import_refuses_non_json() {
    assert!(matches!(import_plan("not json"), Err(ImportError::InvalidJson(_))));
}

#[test]
fn export_then_import_keeps_title_and_messages() {
    let messages = vec![msg(1, "user", "问题"), msg(2, "assistant", "回答")];
    let text = export_json("会话", 5, &messages);
    let plan = import_plan(&text).unwrap();
    assert_eq!(plan.title, "会话");
    let got: Vec<(String, String)> = plan.messages.into_iter().map(|e| (e.role, e.content)).collect();
    assert_eq!(got, vec![("user".to_string(), "问题".to_string()), ("assistant".to_string(), "回答".to_string())]);
}

#[test]
fn plan_import_from_document() {
    let doc = ImportDoc {
        title: None,
        messages: Some(vec![ImportedMessage { role: None, content: None }, ImportedMessage { role: None, content: Some("x".to_string()) }]),
    };
    let plan = plan_import(doc);
    assert_eq!(plan.title, "导入的对话");
    assert_eq!(plan.messages.len(), 1);
    assert_eq!(plan.messages[0].role, "user");
}

#[test]
fn export_escapes_controls_as_serde_json_does() {
    let messages = vec![msg(1, "user", "a\u{1}b\u{1f}\u{8}\u{c}\t\\\u{7f}\u{2028}")];
    let text = export_json("t", 1, &messages);
    assert!(text.contains("\"a\\u0001b\\u001f\\b\\f\\t\\\\\u{7f}\u{2028}\""));
    let plan = import_plan(&text).unwrap();
    assert_eq!(plan.messages[0].content, "a\u{1}b\u{1f}\u{8}\u{c}\t\\\u{7f}\u{2028}");
}
