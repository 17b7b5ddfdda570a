use termx::session::{FunctionCall, Message, Session, Timestamp, ToolCall};

fn is_lower_hex(c: char) -> bool {
    c.is_ascii_digit() || ('a'..='f').contains(&c)
}

fn user(text: &str) -> Message {
    Message {
        role: "user".to_string(),
        content: Some(text.to_string()),
        tool_calls: None,
        tool_call_id: None,
    }
}

#[test]
fn new_session_has_v4_uuid_and_no_messages() {
    let s = Session::new(None, None);
    let id: Vec<char> = s.id.chars().collect();
    assert_eq!(id.len(), 36);
    for (i, c) in id.iter().enumerate() {
        if i == 8 || i == 13 || i == 18 || i == 23 {
            assert_eq!(*c, '-');
        } else {
            assert!(is_lower_hex(*c));
        }
    }
    assert_eq!(id[14], '4');
    assert!(matches!(id[19], '8' | '9' | 'a' | 'b'));
    assert!(s.messages.is_empty());
    assert_eq!(s.title, None);
    assert_eq!(s.model, None);
    assert!(s.created_at.secs > 0);
    assert!(s.created_at.nanos < 1_000_000_000);
}

#[test]
fn new_sessions_have_distinct_ids() {
    let a = Session::new(Some("a"), None);
    let b = Session::new(Some("a"), None);
    assert_ne!(a.id, b.id);
}

#[test]
fn with_identity_keeps_given_fields() {
    let t0 = Timestamp { secs: 100, nanos: 5 };
    let t1 = Timestamp { secs: 101, nanos: 0 };
    let s = Session::with_identity("abc".to_string(), t0, t1, Some("T"), None);
    assert_eq!(s.id, "abc");
    assert_eq!(s.created_at, t0);
    assert_eq!(s.updated_at, t1);
    assert_eq!(s.title, Some("T".to_string()));
    assert_eq!(s.model, None);
    assert!(s.messages.is_empty());
}

#[test]
fn add_message_appends_and_keeps_history() {
    let t0 = Timestamp { secs: 1, nanos: 0 };
    let mut s = Session::with_identity("id-1".to_string(), t0, t0, None, Some("m"));
    s.add_message(user("first"));
    s.add_message(Message {
        role: "assistant".to_string(),
        content: None,
        tool_calls: Some(vec![ToolCall {
            id: "call_1".to_string(),
            kind: "function".to_string(),
            function: FunctionCall {
                name: "list_dir".to_string(),
                arguments: "{\"path\": \".\"}".to_string(),
            },
        }]),
        tool_call_id: None,
    });
    s.add_message(user("third"));
    assert_eq!(s.messages.len(), 3);
    assert_eq!(s.messages[0].content, Some("first".to_string()));
    assert_eq!(s.messages[1].role, "assistant");
    assert_eq!(
        s.messages[1].tool_calls.as_ref().unwrap()[0].function.name,
        "list_dir"
    );
    assert_eq!(s.messages[2].content, Some("third".to_string()));
    assert_eq!(s.id, "id-1");
    assert_eq!(s.created_at, t0);
    assert_eq!(s.model, Some("m".to_string()));
    assert!(s.updated_at.secs > 1);
}

#[test]
fn prepare_save_names_file_after_id() {
    let t0 = Timestamp { secs: 7, nanos: 0 };
    let mut s = Session::with_identity("0f3c".to_string(), t0, t0, None, None);
    s.add_message(user("x"));
    let name = s.prepare_save();
    assert_eq!(name, "0f3c.json");
    assert_eq!(s.messages.len(), 1);
    assert_eq!(s.id, "0f3c");
    assert_eq!(s.created_at, t0);
    assert!(s.updated_at.secs > 7);
}

#[test]
fn add_message_at_stamps_given_time() {
    let t0 = Timestamp { secs: 10, nanos: 0 };
    let t1 = Timestamp { secs: 20, nanos: 3 };
    let mut s = Session::with_identity("i".to_string(), t0, t0, Some("t"), None);
    s.add_message_at(user("hello"), t1);
    assert_eq!(s.updated_at, t1);
    assert_eq!(s.created_at, t0);
    assert_eq!(s.messages.len(), 1);
    assert_eq!(s.messages[0].content, Some("hello".to_string()));
}

#[test]
fn stamp_and_prepare_save_at() {
    let t0 = Timestamp { secs: 1, nanos: 1 };
    let t1 = Timestamp { secs: 2, nanos: 2 };
    let t2 = Timestamp { secs: 3, nanos: 3 };
    let mut s = Session::with_identity("abc-1".to_string(), t0, t0, None, None);
    s.stamp(t1);
    assert_eq!(s.updated_at, t1);
    let name = s.prepare_save_at(t2);
    assert_eq!(name, "abc-1.json");
    assert_eq!(s.updated_at, t2);
    assert_eq!(s.created_at, t0);
}

#[test]
fn history_is_the_appended_messages_in_order() {
    let mut s = Session::new(Some("T"), Some("m"));
    let id = s.id.clone();
    let created = s.created_at;
    let texts = ["one", "two", "three", "four"];
    for t in texts {
        s.add_message(user(t));
    }
    let got: Vec<String> = s.messages.iter().map(|m| m.content.clone().unwrap()).collect();
    assert_eq!(got, texts.iter().map(|t| t.to_string()).collect::<Vec<_>>());
    assert_eq!(s.id, id);
    assert_eq!(s.created_at, created);
    assert_eq!(s.title, Some("T".to_string()));
    assert_eq!(s.model, Some("m".to_string()));
}
