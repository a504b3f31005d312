use meowi::registry::Polled;
use meowi::config::CustomModel;
use meowi::session::{App, SubmitError};
use meowi::transport::{classify_event_line, split_model_ref, EventLine};
use meowi::viewport::NavCommand;

#[test]
fn model_references_split_at_one_colon() {
    assert_eq!(
        split_model_ref("OpenAI:gpt-4o"),
        Some(("OpenAI".to_string(), "gpt-4o".to_string()))
    );
    assert_eq!(split_model_ref("Custom:"), Some(("Custom".to_string(), String::new())));
    assert_eq!(split_model_ref("no colon"), None);
    assert_eq!(split_model_ref("a:b:c"), None);
}

#[test]
fn event_lines_are_sorted() {
    match classify_event_line("data: {\"x\":1}") {
        EventLine::Data(p) => assert_eq!(p, "{\"x\":1}"),
        _ => panic!("expected data"),
    }
    assert!(matches!(classify_event_line("data: [DONE]"), EventLine::Done));
    assert!(matches!(classify_event_line("data: "), EventLine::Skip));
    assert!(matches!(classify_event_line("event: ping"), EventLine::Skip));
    assert!(matches!(classify_event_line(""), EventLine::Skip));
}

#[test]
fn submission_gathers_history() {
    let mut app = App::new();
    app.add_user_message("earlier".to_string());
    let sub = match app.prepare_submission("now") {
        Ok(s) => s,
        Err(_) => panic!("expected a submission"),
    };
    assert_eq!(sub.provider, "OpenAI");
    assert_eq!(sub.model, "gpt-4o");
    assert_eq!(sub.history.len(), 2);
    assert_eq!(sub.history[1].content, "now");
    assert_eq!(sub.chat_id, app.chats[0].id);

    let tx = app.commit_submission("now".to_string()).expect("stream registered");
    assert!(app.chats[0].streaming);
    assert_eq!(app.chats[0].messages.len(), 2);
    assert!(matches!(app.prepare_submission("again"), Err(SubmitError::Busy)));

    tx.try_send("reply".to_string()).unwrap();
    drop(tx);
    app.process_stream();
    assert_eq!(app.chats[0].messages.len(), 3);
    assert_eq!(app.chats[0].messages[2].content, "reply");
    assert!(!app.chats[0].streaming);
}

#[test]
fn submission_errors() {
    let mut app = App::new();
    app.chats[0].model = "broken".to_string();
    assert!(matches!(app.prepare_submission("x"), Err(SubmitError::InvalidModel)));
    app.delete_chat(0);
    assert!(matches!(app.prepare_submission("x"), Err(SubmitError::NoChat)));
    assert!(app.commit_submission("x".to_string()).is_none());
}

#[test]
fn keys_and_custom_endpoints() {
    let mut app = App::new();
    assert_eq!(app.provider_api_key("OpenAI"), None);
    app.providers[2].api_key = "grok-key-123".to_string();
    assert_eq!(app.provider_api_key("Grok"), Some("grok-key-123".to_string()));
    assert_eq!(app.provider_api_key("Nobody"), None);
    app.custom_models.push(CustomModel::Derived { provider: "OpenAI".to_string(), model: "m".to_string() });
    app.custom_models.push(CustomModel::Standalone {
        name: "local".to_string(),
        endpoint: "http://localhost:8080".to_string(),
        model: "llama".to_string(),
        api_key: None,
        use_key_from: Some("Grok".to_string()),
    });
    app.custom_models.push(CustomModel::Standalone {
        name: "own".to_string(),
        endpoint: "http://e".to_string(),
        model: "x".to_string(),
        api_key: Some("k".to_string()),
        use_key_from: None,
    });
    assert_eq!(
        app.custom_endpoint("local"),
        Some(("http://localhost:8080".to_string(), "llama".to_string(), Some("grok-key-123".to_string())))
    );
    assert_eq!(app.custom_endpoint("own"), Some(("http://e".to_string(), "x".to_string(), Some("k".to_string()))));
    assert_eq!(app.custom_endpoint("m"), None);
}

#[test]
fn model_selection_updates_chat() {
    let mut app = App::new();
    app.select_model(1);
    assert_eq!(app.current_model, "OpenAI:gpt-4-turbo");
    assert_eq!(app.chats[0].model, "OpenAI:gpt-4-turbo");
    app.select_model(100);
    assert_eq!(app.current_model, "OpenAI:gpt-4-turbo");
}

#[test]
fn selected_text_spans_lines() {
    let mut app = App::new();
    app.add_user_message("one".to_string());
    app.add_user_message("two".to_string());
    app.prepare_frame(20, 10);
    assert_eq!(app.document.text_between(0, 2), "one\n\ntwo");
    assert_eq!(app.document.text_between(2, 99), "two\n");
    assert_eq!(app.document.text_between(5, 9), "");
    app.navigate(NavCommand::Start);
    assert_eq!(app.message_at_cursor(), Some((0, false)));
}

#[test]
fn stream_for_deleted_conversation_is_drained_harmlessly() {
    let mut app = App::new();
    app.create_new_chat();
    let id = app.chats[0].id.clone();
    let tx = app.start_stream(id).expect("registered");
    app.delete_chat(0);
    tx.try_send("orphan".to_string()).unwrap();
    drop(tx);
    app.process_stream();
    assert_eq!(app.chats.len(), 1);
    assert!(app.chats[0].messages.is_empty());
    assert!(app.stream_tasks.is_empty());
}

#[test]
fn provider_models_toggle_and_keys() {
    let mut app = App::new();
    app.toggle_model_enabled(0, "gpt-4-turbo");
    assert_eq!(app.providers[0].enabled_models, vec!["gpt-4o", "gpt-3.5-turbo"]);
    app.toggle_model_enabled(0, "gpt-4-turbo");
    assert_eq!(app.providers[0].enabled_models, vec!["gpt-4o", "gpt-3.5-turbo", "gpt-4-turbo"]);
    app.toggle_model_enabled(9, "x");
    assert!(!app.set_provider_key(0, "  short "));
    assert_eq!(app.providers[0].api_key, "");
    assert!(app.set_provider_key(0, "  sk-long-enough  "));
    assert_eq!(app.providers[0].api_key, "sk-long-enough");
    assert!(!app.set_provider_key(7, "sk-long-enough"));
}

#[test]
fn polled_results_drive_the_drain() {
    let mut app = App::new();
    let id = app.chats[0].id.clone();
    let _tx = app.start_stream(id).expect("registered");
    assert!(app.apply_polled(0, Polled::Fragment("a".to_string())));
    assert!(app.apply_polled(0, Polled::Fragment("b".to_string())));
    assert_eq!(app.chats[0].messages[0].content, "ab");
    assert!(!app.apply_polled(0, Polled::Empty));
    assert_eq!(app.stream_tasks.len(), 1);
    assert!(app.chats[0].streaming);
    assert!(!app.apply_polled(0, Polled::Closed));
    assert!(app.stream_tasks.is_empty());
    assert!(!app.chats[0].streaming);
}

#[test]
fn draining_leaves_the_viewport_alone() {
    let mut app = App::new();
    for i in 0..6 {
        app.add_user_message(format!("m{}", i));
    }
    app.prepare_frame(20, 4);
    app.navigate(NavCommand::Start);
    let before = app.viewport;
    let id = app.chats[0].id.clone();
    let tx = app.start_stream(id).expect("registered");
    tx.try_send("reply".to_string()).unwrap();
    app.process_stream();
    assert_eq!(app.viewport, before);
    app.process_stream();
    assert_eq!(app.chats[0].messages.len(), 7);
}

#[test]
fn new_chat_starts_at_the_top_and_empty_app_ignores_messages() {
    let mut app = App::new();
    for i in 0..5 {
        app.add_user_message(format!("m{}", i));
    }
    app.prepare_frame(20, 4);
    assert_eq!(app.viewport.cursor_line, 9);
    app.create_new_chat();
    assert_eq!(app.viewport.cursor_line, 0);
    app.delete_chat(1);
    app.delete_chat(0);
    app.need_rebuild_cache = false;
    app.add_user_message("lost".to_string());
    assert!(!app.need_rebuild_cache);
    assert!(app.chats.is_empty());
}

#[test]
fn shrinking_the_viewport_keeps_the_cursor_visible() {
    let mut app = App::new();
    for i in 0..10 {
        app.add_user_message(format!("m{}", i));
    }
    app.prepare_frame(20, 30);
    app.navigate(NavCommand::Start);
    app.navigate(NavCommand::Down(15));
    app.prepare_frame(20, 5);
    let v = app.viewport;
    assert!(v.scroll <= v.cursor_line && v.cursor_line < v.scroll + v.height);
}

#[test]
fn waiting_for_a_response() {
    let mut app = App::new();
    assert!(!app.awaiting_response());
    app.commit_submission("hi".to_string()).expect("registered");
    assert!(app.awaiting_response());
    let id = app.chats[0].id.clone();
    app.apply_fragment(&id, "  ");
    assert!(app.awaiting_response());
    app.apply_fragment(&id, "ok");
    assert!(!app.awaiting_response());
}
