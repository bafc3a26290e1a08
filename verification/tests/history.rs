use jarvis_core::history::ConversationHistory;

#[test]
fn evicts_oldest_turns_but_keeps_system_prompt() {
    let mut h = ConversationHistory::new("you are jarvis", 4);
    h.push_user("u1");
    h.push_assistant("a1");
    h.push_user("u2");
    h.push_assistant("a2");
    h.push_user("u3");

    let snap = h.snapshot();
    assert_eq!(snap[0].role, "system");
    assert_eq!(snap[0].content, "you are jarvis");
    assert_eq!(snap.len(), 1 + 4);

    let contents: Vec<&str> = snap.iter().skip(1).map(|m| m.content.as_str()).collect();
    assert_eq!(contents, vec!["a1", "u2", "a2", "u3"]);
}

#[test]
fn snapshot_with_no_system_returns_only_turns() {
    let mut h = ConversationHistory::without_system(3);
    h.push_user("hi");
    h.push_assistant("hello");
    let snap = h.snapshot();
    assert_eq!(snap.len(), 2);
    assert_eq!(snap[0].role, "user");
    assert_eq!(snap[1].role, "assistant");
}

#[test]
fn cap_of_zero_is_clamped_to_one() {
    let mut h = ConversationHistory::new("sys", 0);
    h.push_user("a");
    h.push_user("b");
    let snap = h.snapshot();
    assert_eq!(snap.len(), 2);
    assert_eq!(snap[0].role, "system");
    assert_eq!(snap[1].content, "b");
}

#[test]
fn clear_removes_turns_but_not_system() {
    let mut h = ConversationHistory::new("sys", 4);
    h.push_user("u");
    h.push_assistant("a");
    h.clear();
    let snap = h.snapshot();
    assert_eq!(snap.len(), 1);
    assert_eq!(snap[0].role, "system");
}

#[test]
fn turns_exclude_the_system_prompt() {
    let mut h = ConversationHistory::new("sys", 2);
    h.push_user("q");
    h.push_assistant("r");
    let turns = h.turns();
    assert_eq!(turns.len(), 2);
    assert_eq!(turns[0].role, "user");
    assert_eq!(turns[0].content, "q");
    assert_eq!(turns[1].role, "assistant");
    assert_eq!(turns[1].content, "r");
}

#[test]
fn pop_last_user_undoes_an_unanswered_prompt() {
    let mut h = ConversationHistory::new("sys", 4);
    h.push_user("q1");
    h.push_assistant("r1");
    h.push_user("q2");
    h.pop_last_user();
    let contents: Vec<&str> = h.turns().iter().map(|m| m.content.as_str()).collect();
    assert_eq!(contents, vec!["q1", "r1"]);
    // The last turn is now the assistant's: nothing more is taken back.
    h.pop_last_user();
    assert_eq!(h.turns().len(), 2);
}

#[test]
fn many_turns_keep_only_the_newest() {
    let mut h = ConversationHistory::without_system(3);
    for i in 0..10 {
        h.push_user(&format!("m{}", i));
    }
    let contents: Vec<&str> = h.turns().iter().map(|m| m.content.as_str()).collect();
    assert_eq!(contents, vec!["m7", "m8", "m9"]);
    assert_eq!(h.snapshot().len(), 3);
}

#[test]
fn history_without_system_never_gains_one() {
    let mut h = ConversationHistory::without_system(2);
    assert!(h.snapshot().is_empty());
    h.push_user("a");
    h.push_assistant("b");
    h.push_user("c");
    h.clear();
    h.push_user("d");
    h.pop_last_user();
    h.push_assistant("e");
    let snap = h.snapshot();
    assert_eq!(snap.len(), h.turns().len());
    assert!(snap.iter().all(|m| m.role != "system"));
    assert_eq!(snap[0].content, "e");
}
