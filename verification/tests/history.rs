use chatml::history::ChatHistory;
use chatml::history::PromptMessage;
use chatml::history::Role;

#[test]
fn new_history_is_empty() {
    let h = ChatHistory::new("S");
    assert_eq!(h.get_messages().len(), 0);
}

#[test]
fn append_stores_turns_in_order() {
    let mut h = ChatHistory::new("S");
    h.append_user_prompt("A");
    h.append_assistant_prompt("B");
    let m = h.get_messages();
    assert_eq!(m.len(), 2);
    assert_eq!(m[0].role, Role::User);
    assert_eq!(m[0].content, "A");
    assert_eq!(m[1].role, Role::Assistant);
    assert_eq!(m[1].content, "B");
}

#[test]
fn window_never_exceeds_capacity() {
    let mut h = ChatHistory::new("S");
    for i in 0..25 {
        if i % 2 == 0 {
            h.append_user_prompt(&format!("u{}", i));
        } else {
            h.append_assistant_prompt(&format!("a{}", i));
        }
        assert!(h.get_messages().len() <= 10);
    }
    let m = h.get_messages();
    assert_eq!(m.len(), 10);
    // the survivors are the ten most recently appended, in original order
    for (k, msg) in m.iter().enumerate() {
        let i = 15 + k;
        let expected = if i % 2 == 0 { format!("u{}", i) } else { format!("a{}", i) };
        assert_eq!(msg.content, expected);
    }
}

#[test]
fn prompt_for_does_not_mutate() {
    let mut h = ChatHistory::new("S");
    h.append_user_prompt("A");
    h.append_assistant_prompt("B");
    let p1 = h.generate_messages("C");
    let p2 = h.generate_messages("C");
    assert_eq!(p1, p2);
    // appends behave the same after any number of prompts
    h.append_user_prompt("C");
    let m = h.get_messages();
    assert_eq!(m.len(), 3);
    assert_eq!(m[2].content, "C");
}

#[test]
fn end_to_end_prompt_scenario() {
    let mut h = ChatHistory::new("S");
    h.append_user_prompt("A");
    h.append_assistant_prompt("B");
    let p = h.generate_messages("C");
    let expected = vec![
        PromptMessage { role: Role::System, content: "S".to_string() },
        PromptMessage { role: Role::User, content: "A".to_string() },
        PromptMessage { role: Role::Assistant, content: "B".to_string() },
        PromptMessage { role: Role::User, content: "C".to_string() },
    ];
    assert_eq!(p, expected);
}

#[test]
fn clear_keeps_system_message() {
    let mut h = ChatHistory::new("S");
    h.append_user_prompt("A");
    h.append_assistant_prompt("B");
    h.clear();
    assert_eq!(h.get_messages().len(), 0);
    let p = h.generate_messages("C");
    assert_eq!(p.len(), 2);
    assert_eq!(p[0].role, Role::System);
    assert_eq!(p[0].content, "S");
    assert_eq!(p[1].role, Role::User);
    assert_eq!(p[1].content, "C");
}

#[test]
fn transient_turn_is_not_stored() {
    let mut h = ChatHistory::new("S");
    h.append_user_prompt("A");
    let _ = h.generate_messages("C");
    assert_eq!(h.get_messages().len(), 1);
}

#[test]
fn empty_turn_text_is_allowed() {
    let mut h = ChatHistory::new("");
    h.append_user_prompt("");
    let m = h.get_messages();
    assert_eq!(m.len(), 1);
    assert_eq!(m[0].content, "");
}
