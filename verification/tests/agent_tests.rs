use std::time::Duration;
use termx::agent::AgentOptions;
use termx::session::{Message, Session};

#[test]
fn test_agent_options_creation() {
    let opts = AgentOptions {
        max_steps: 10,
        yolo: false,
        step_timeout: Duration::from_secs(30),
        observation_clip: 2000,
    };

    assert_eq!(opts.max_steps, 10);
    assert!(!opts.yolo);
    assert_eq!(opts.step_timeout, Duration::from_secs(30));
    assert_eq!(opts.observation_clip, 2000);
}

#[test]
fn test_session_with_agent_workflow() {
    let mut session = Session::new(Some("Test Session"), Some("test-model"));

    session.add_message(Message {
        role: "system".to_string(),
        content: Some("You are a helpful assistant".to_string()),
        tool_calls: None,
        tool_call_id: None,
    });

    session.add_message(Message {
        role: "user".to_string(),
        content: Some("List the current directory".to_string()),
        tool_calls: None,
        tool_call_id: None,
    });

    assert_eq!(session.messages.len(), 2);
    assert_eq!(session.messages[0].role, "system");
    assert_eq!(session.messages[1].role, "user");
    assert_eq!(session.title, Some("Test Session".to_string()));
    assert_eq!(session.model, Some("test-model".to_string()));
}

#[test]
fn test_message_parsing() {
    let tool_args = r#"{"path": "/test/path", "content": "test content"}"#;
    let parsed: serde_json::Value = serde_json::from_str(tool_args).unwrap();

    assert_eq!(parsed["path"], "/test/path");
    assert_eq!(parsed["content"], "test content");
}
