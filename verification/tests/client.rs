use chatml::chatml::ChatMLClient;
use chatml::history::PromptMessage;
use chatml::history::Role;
use chatml::ingest::assemble_chat;
use chatml::ingest::author_role;
use chatml::ingest::IncomingTurn;
use chatml::wire::build_request_body;

#[test]
fn default_client_configuration() {
    let c = ChatMLClient::new();
    assert_eq!(c.server_url, "http://localhost:8080/v1/chat/completions");
    assert_eq!(c.secret_key, "no-key");
    assert_eq!(c.model, "gpt-3.5-turbo");
}

#[test]
fn auth_header_carries_bearer_credential() {
    let c = ChatMLClient::with_config(
        "http://example.invalid/v1/chat/completions".to_string(),
        "test-key-123".to_string(),
        "m".to_string(),
    );
    assert_eq!(c.auth_header_value(), "Bearer test-key-123");
}

#[test]
fn request_body_has_the_documented_shape() {
    let c = ChatMLClient::new();
    let messages = vec![
        PromptMessage { role: Role::System, content: "S".to_string() },
        PromptMessage { role: Role::User, content: "hello".to_string() },
    ];
    let body = c.request_body(&messages, 42);
    let expected = "{\"model\":\"gpt-3.5-turbo\",\"messages\":[{\"role\":\"system\",\"content\":\"S\"},{\"role\":\"user\",\"content\":\"hello\"}],\"temperature\":0.8,\"seed\":42,\"stream\":true,\"cache_prompt\":true}";
    assert_eq!(String::from_utf8(body).unwrap(), expected);
}

#[test]
fn request_body_is_valid_json() {
    let c = ChatMLClient::new();
    let messages = vec![
        PromptMessage { role: Role::System, content: "a \"quoted\" line\nwith\tcontrol \u{1},\\ bytes".to_string() },
        PromptMessage { role: Role::Assistant, content: "ünïcode".to_string() },
    ];
    let body = c.request_body(&messages, 4294967295);
    let v: serde_json::Value = serde_json::from_slice(&body).unwrap();
    assert_eq!(v["model"], "gpt-3.5-turbo");
    assert_eq!(v["temperature"], 0.8);
    assert_eq!(v["seed"], 4294967295u32 as u64);
    assert_eq!(v["stream"], true);
    assert_eq!(v["cache_prompt"], true);
    assert_eq!(v["messages"][0]["role"], "system");
    assert_eq!(
        v["messages"][0]["content"],
        "a \"quoted\" line\nwith\tcontrol \u{1},\\ bytes"
    );
    assert_eq!(v["messages"][1]["role"], "assistant");
    assert_eq!(v["messages"][1]["content"], "ünïcode");
}

#[test]
fn string_escaping_is_exact() {
    let messages = vec![PromptMessage {
        role: Role::User,
        content: "\"\\\u{8}\u{c}\n\r\t\u{1f}x".to_string(),
    }];
    let body = build_request_body("m", &messages, 0);
    let s = String::from_utf8(body).unwrap();
    let expected = "{\"model\":\"m\",\"messages\":[{\"role\":\"user\",\"content\":\"\\\"\\\\\\b\\f\\n\\r\\t\\u001fx\"}],\"temperature\":0.8,\"seed\":0,\"stream\":true,\"cache_prompt\":true}";
    assert_eq!(s, expected);
}

#[test]
fn seed_renders_in_decimal() {
    let body = build_request_body("m", &vec![], 1234567890);
    let s = String::from_utf8(body).unwrap();
    assert!(s.contains("\"seed\":1234567890,"));
    let body = build_request_body("m", &vec![], 0);
    let s = String::from_utf8(body).unwrap();
    assert!(s.contains("\"seed\":0,"));
}

#[test]
fn author_role_recognises_the_two_turn_authors() {
    assert_eq!(author_role("user"), Some(Role::User));
    assert_eq!(author_role("assistant"), Some(Role::Assistant));
    assert_eq!(author_role("system"), None);
    assert_eq!(author_role(""), None);
    assert_eq!(author_role("assistant2"), None);
}

#[test]
fn assemble_chat_filters_and_prepends_system() {
    let turns = vec![
        IncomingTurn { author: "user".to_string(), text: "hi".to_string() },
        IncomingTurn { author: "tool".to_string(), text: "ignored".to_string() },
        IncomingTurn { author: "assistant".to_string(), text: "hello".to_string() },
    ];
    let msgs = assemble_chat("S", &turns);
    assert_eq!(msgs.len(), 3);
    assert_eq!(msgs[0].role, Role::System);
    assert_eq!(msgs[0].content, "S");
    assert_eq!(msgs[1].role, Role::User);
    assert_eq!(msgs[1].content, "hi");
    assert_eq!(msgs[2].role, Role::Assistant);
    assert_eq!(msgs[2].content, "hello");
}
