use modelcheck::ai::{ModelEntry, ProviderStatus};
use modelcheck::chat::{
    apply_stream_item, copy_messages, finish_stream, progress_label, session_name_from_messages,
    submit_prompt, toggle_model, ChatSessions, Message, StreamSlot,
};

fn user(s: &str) -> Message {
    Message::User { content: s.to_string() }
}

fn ai(id: &str) -> Message {
    Message::AI { model_id: id.to_string(), model_name: id.to_string(), response: String::new(), error: None, is_finished: false }
}

fn content(m: &Message) -> String {
    match m {
        Message::User { content } => content.clone(),
        Message::AI { response, .. } => response.clone(),
    }
}

#[test]
fn session_name_is_first_prompt() {
    assert_eq!(session_name_from_messages(&vec![ai("x"), user("  Hello there \n"), user("later")]), "Hello there");
    assert_eq!(session_name_from_messages(&vec![]), "New Chat");
    assert_eq!(session_name_from_messages(&vec![ai("x")]), "New Chat");
}

#[test]
fn long_session_names_are_cut_at_30_bytes() {
    let long = "abcdefghijklmnopqrstuvwxyz0123456789";
    assert_eq!(session_name_from_messages(&vec![user(long)]), "abcdefghijklmnopqrstuvwxyz0123...");
    let exact = "abcdefghijklmnopqrstuvwxyz0123";
    assert_eq!(session_name_from_messages(&vec![user(exact)]), exact);
    // 15 two-byte characters and more: the cut is on a boundary
    let wide = "éééééééééééééééééé";
    assert_eq!(session_name_from_messages(&vec![user(wide)]), "ééééééééééééééé...");
}

#[test]
fn new_session_archives_fresh_chat() {
    let mut s = ChatSessions::new();
    s.messages = vec![user("first question"), ai("a")];
    s.new_session();
    assert!(s.messages.is_empty());
    assert_eq!(s.active, None);
    assert_eq!(s.history.len(), 1);
    assert_eq!(s.history[0].0, "first question");
    assert_eq!(s.history[0].1.len(), 2);
    // an empty chat is not archived
    s.new_session();
    assert_eq!(s.history.len(), 1);
}

#[test]
fn open_session_saves_and_loads() {
    let mut s = ChatSessions::new();
    s.messages = vec![user("one")];
    s.new_session();
    s.messages = vec![user("two")];
    s.new_session();
    s.messages = vec![user("three")];
    // the fresh chat is archived as index 2, then session 0 is opened
    s.open_session(0);
    assert_eq!(s.history.len(), 3);
    assert_eq!(s.active, Some(0));
    assert_eq!(content(&s.messages[0]), "one");
    assert_eq!(s.history[2].0, "three");
    // changes of an open session are saved in place when switching
    s.messages.push(user("more"));
    s.open_session(1);
    assert_eq!(s.history.len(), 3);
    assert_eq!(s.history[0].1.len(), 2);
    assert_eq!(content(&s.messages[0]), "two");
}

#[test]
fn deleting_sessions_keeps_the_open_one() {
    let mut s = ChatSessions::new();
    for p in ["a", "b", "c"] {
        s.messages = vec![user(p)];
        s.new_session();
    }
    s.open_session(2);
    s.delete_session(0);
    assert_eq!(s.active, Some(1));
    assert_eq!(s.history[1].0, "c");
    assert_eq!(content(&s.messages[0]), "c");
    s.delete_session(1);
    assert_eq!(s.active, None);
    assert!(s.messages.is_empty());
    assert_eq!(s.history.len(), 1);
    assert_eq!(s.history[0].0, "b");
}

#[test]
fn deleting_after_the_open_session_keeps_its_index() {
    let mut s = ChatSessions::new();
    for p in ["a", "b"] {
        s.messages = vec![user(p)];
        s.new_session();
    }
    s.open_session(0);
    s.delete_session(1);
    assert_eq!(s.active, Some(0));
    assert_eq!(s.history.len(), 1);
}

fn models() -> Vec<ModelEntry> {
    vec![
        ModelEntry { id: "m.ready".to_string(), name: "Ready".to_string(), status: ProviderStatus::Ready },
        ModelEntry { id: "m.auth".to_string(), name: "Auth".to_string(), status: ProviderStatus::RequiresAuth },
    ]
}

#[test]
fn empty_prompt_does_nothing() {
    let mut msgs = vec![user("x")];
    let slots = submit_prompt(&mut msgs, "", &vec!["m.ready".to_string()], &models());
    assert!(slots.is_empty());
    assert_eq!(msgs.len(), 1);
}

#[test]
fn prompt_without_selection_gets_system_error() {
    let mut msgs = vec![];
    let slots = submit_prompt(&mut msgs, "hi", &vec![], &models());
    assert!(slots.is_empty());
    assert_eq!(msgs.len(), 2);
    match &msgs[1] {
        Message::AI { model_id, model_name, error, is_finished, .. } => {
            assert_eq!(model_id, "system");
            assert_eq!(model_name, "System");
            assert!(*is_finished);
            assert_eq!(error.as_deref(), Some("No models are currently selected. Please select at least one model before sending a prompt."));
        }
        _ => panic!("expected an answer"),
    }
}

#[test]
fn prompt_fans_out_and_streams_back() {
    let mut msgs = vec![];
    let selected = vec!["m.ready".to_string(), "m.auth".to_string(), "m.gone".to_string()];
    let slots = submit_prompt(&mut msgs, "hi", &selected, &models());
    assert_eq!(slots.len(), 3);
    assert_eq!(slots[0].index, 1);
    assert_eq!(slots[2].model_id, "m.gone");
    assert_eq!(msgs.len(), 4);
    match (&msgs[1], &msgs[2], &msgs[3]) {
        (
            Message::AI { model_name: n1, error: e1, is_finished: f1, .. },
            Message::AI { model_name: n2, error: e2, is_finished: f2, .. },
            Message::AI { model_name: n3, is_finished: f3, .. },
        ) => {
            assert_eq!((n1.as_str(), e1.is_none(), *f1), ("Ready", true, false));
            assert_eq!(n2, "Auth");
            assert_eq!(e2.as_deref(), Some("Model requires authentication or setup in Neural Engines before use."));
            assert!(*f2);
            assert_eq!((n3.as_str(), *f3), ("Unknown Model", true));
        }
        _ => panic!("expected answers"),
    }
    apply_stream_item(&mut msgs, &slots, "m.ready", Ok("Hel".to_string()));
    apply_stream_item(&mut msgs, &slots, "m.ready", Ok("lo".to_string()));
    apply_stream_item(&mut msgs, &slots, "m.auth", Err("boom".to_string()));
    apply_stream_item(&mut msgs, &slots, "m.other", Ok("lost".to_string()));
    assert_eq!(content(&msgs[1]), "Hello");
    assert!(matches!(&msgs[2], Message::AI { error: Some(e), .. } if e == "boom"));
    finish_stream(&mut msgs, &slots);
    assert!(matches!(&msgs[1], Message::AI { is_finished: true, .. }));
    assert!(matches!(&msgs[0], Message::User { .. }));
}

#[test]
fn stream_slot_out_of_range_is_ignored() {
    let mut msgs = vec![user("q")];
    let slots = vec![StreamSlot { model_id: "m".to_string(), index: 5 }];
    apply_stream_item(&mut msgs, &slots, "m", Ok("x".to_string()));
    finish_stream(&mut msgs, &slots);
    assert_eq!(msgs.len(), 1);
    assert_eq!(content(&msgs[0]), "q");
}

#[test]
fn toggling_a_model_twice_restores_selection() {
    let mut sel = vec!["a".to_string(), "b".to_string()];
    toggle_model(&mut sel, "c");
    assert_eq!(sel, vec!["a", "b", "c"]);
    toggle_model(&mut sel, "a");
    assert_eq!(sel, vec!["b", "c"]);
    toggle_model(&mut sel, "a");
    toggle_model(&mut sel, "a");
    assert_eq!(sel, vec!["b", "c"]);
}

#[test]
fn progress_labels() {
    assert_eq!(progress_label(true, "", false), "Reasoning Complete");
    assert_eq!(progress_label(false, "", false), "Loading Model...");
    assert_eq!(progress_label(false, "", true), "Generating...");
    assert_eq!(progress_label(false, "tok", false), "Generating...");
}

#[test]
fn copies_are_equal() {
    let v = vec![user("a"), ai("b")];
    let c = copy_messages(&v);
    assert_eq!(c.len(), 2);
    assert_eq!(content(&c[0]), "a");
}
