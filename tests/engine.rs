use meowi::chat::{Message, Role};
use meowi::config::{
    anthropic_models, grok_models, mask_api_key, openai_models, CustomModel, Prompt, Settings,
};
use meowi::fence::{extract_code_blocks, parse_message_segments, Segment};
use meowi::render::{StyledLine, MAX_VISIBLE_LINES_PER_MESSAGE};
use meowi::chat::decimal_string;
use meowi::session::App;
use meowi::viewport::{NavCommand, Viewport};

fn line_text(l: &StyledLine) -> String {
    l.spans.iter().map(|s| s.text.as_str()).collect()
}

fn document_text(app: &App) -> Vec<String> {
    app.document.lines.iter().map(line_text).collect()
}

fn current_chat_id(app: &App) -> String {
    app.chats[app.current_chat].id.clone()
}

#[test]
fn scenario_hello_then_streamed_block() {
    let mut app = App::new();
    app.add_user_message("hello".to_string());
    app.prepare_frame(80, 24);
    assert_eq!(app.line_cache.len(), 1);
    assert_eq!(app.line_cache[0].lines.len(), 1);
    assert!(!app.line_cache[0].truncated);
    assert_eq!(line_text(&app.line_cache[0].lines[0]), "hello");

    let id = current_chat_id(&app);
    app.apply_fragment(&id, "```py\nprint(1)\n```");
    let chat = &app.chats[app.current_chat];
    assert_eq!(chat.messages.len(), 2);
    assert_eq!(chat.messages[1].role, Role::Assistant);
    let blocks = extract_code_blocks(&chat.messages[1].content);
    assert_eq!(blocks.len(), 1);
    assert_eq!(blocks[0].language.as_deref(), Some("py"));
    assert_eq!(blocks[0].content, "print(1)");

    app.prepare_frame(80, 24);
    assert_eq!(app.line_cache.len(), 2);
    let lines = &app.line_cache[1].lines;
    assert_eq!(lines.len(), 3);
    assert!(line_text(&lines[0]).starts_with("┌ py "));
    assert!(line_text(&lines[0]).ends_with('┐'));
    assert_eq!(line_text(&lines[1]), "│ print(1)");
    assert!(line_text(&lines[2]).starts_with("└ Copy [c] "));
    assert!(line_text(&lines[2]).ends_with('┘'));
    assert_eq!(lines[0].spans[0].text.chars().count(), 80);
    assert_eq!(lines[2].spans[0].text.chars().count(), 80);
}

#[test]
fn fence_round_trip_two_blocks() {
    let text = "intro\n```rust\nfn a() {}\nlet x = 1;\n```\nmiddle\n```\nplain body\n```\nend\n";
    let blocks = extract_code_blocks(text);
    assert_eq!(blocks.len(), 2);
    assert_eq!(blocks[0].content, "fn a() {}\nlet x = 1;");
    assert_eq!(blocks[0].language.as_deref(), Some("rust"));
    assert_eq!(blocks[0].start_line, 2);
    assert_eq!(blocks[0].end_line, 3);
    assert_eq!(blocks[1].content, "plain body");
    assert_eq!(blocks[1].language, None);
    assert_eq!(blocks[1].start_line, 7);
    assert_eq!(blocks[1].end_line, 7);
}

#[test]
fn unterminated_fence_keeps_the_rest() {
    let text = "before\n```python  \nx = 1\n\ny = 2";
    let blocks = extract_code_blocks(text);
    assert_eq!(blocks.len(), 1);
    assert_eq!(blocks[0].content, "x = 1\n\ny = 2");
    assert_eq!(blocks[0].language.as_deref(), Some("python"));
}

#[test]
fn empty_text_has_no_segments() {
    assert!(parse_message_segments("").is_empty());
    assert!(extract_code_blocks("").is_empty());
}

#[test]
fn segments_alternate_text_and_code() {
    let segs = parse_message_segments("a\nb\n```\nc\n```  \nd\r\n");
    assert_eq!(segs.len(), 3);
    match &segs[0] {
        Segment::Text(ls) => assert_eq!(ls, &vec!["a".to_string(), "b".to_string()]),
        _ => panic!("expected text"),
    }
    match &segs[1] {
        Segment::Code { language, lines, first_line } => {
            assert_eq!(language, &None);
            assert_eq!(lines, &vec!["c".to_string()]);
            assert_eq!(*first_line, 3);
        }
        _ => panic!("expected code"),
    }
    match &segs[2] {
        Segment::Text(ls) => assert_eq!(ls, &vec!["d".to_string()]),
        _ => panic!("expected text"),
    }
}

#[test]
fn streamed_fragments_concatenate_into_one_message() {
    let mut app = App::new();
    let id = current_chat_id(&app);
    let tx = app.start_stream(id.clone()).expect("first registration");
    assert!(app.start_stream(id.clone()).is_none());
    for f in ["Hel", "lo, ", "wor", "ld"] {
        tx.try_send(f.to_string()).unwrap();
    }
    app.process_stream();
    let chat = &app.chats[0];
    assert!(chat.streaming);
    assert_eq!(chat.messages.len(), 1);
    assert_eq!(chat.messages[0].role, Role::Assistant);
    assert_eq!(chat.messages[0].content, "Hello, world");
    tx.try_send("!".to_string()).unwrap();
    drop(tx);
    app.process_stream();
    app.process_stream();
    let chat = &app.chats[0];
    assert_eq!(chat.messages.len(), 1);
    assert_eq!(chat.messages[0].content, "Hello, world!");
    assert!(!chat.streaming);
    assert!(app.stream_tasks.is_empty());
}

#[test]
fn completed_assistant_message_is_not_extended() {
    let mut app = App::new();
    let id = current_chat_id(&app);
    app.apply_fragment(&id, "first");
    app.end_stream(&id);
    app.apply_fragment(&id, "second");
    let chat = &app.chats[0];
    assert_eq!(chat.messages.len(), 2);
    assert_eq!(chat.messages[0].content, "first");
    assert_eq!(chat.messages[1].content, "second");
}

#[test]
fn fragment_for_missing_conversation_is_dropped() {
    let mut app = App::new();
    app.add_user_message("hi".to_string());
    app.apply_fragment("no-such-id", "lost");
    assert_eq!(app.chats[0].messages.len(), 1);
    assert_eq!(app.chats[0].messages[0].content, "hi");
}

fn long_message(n: usize) -> String {
    (0..n).map(|i| format!("line {}", i)).collect::<Vec<_>>().join("\n")
}

#[test]
fn truncation_toggle_cuts_and_restores() {
    let mut app = App::new();
    app.add_user_message(long_message(15));
    app.prepare_frame(40, 100);
    assert!(app.line_cache[0].truncated);
    assert_eq!(app.line_cache[0].lines.len(), MAX_VISIBLE_LINES_PER_MESSAGE);
    let text = document_text(&app);
    assert_eq!(text.len(), MAX_VISIBLE_LINES_PER_MESSAGE + 2);
    assert_eq!(text[MAX_VISIBLE_LINES_PER_MESSAGE], "...");
    assert_eq!(app.document.line_to_message[MAX_VISIBLE_LINES_PER_MESSAGE], (0, true));

    app.toggle_message_truncation(0);
    app.prepare_frame(40, 100);
    assert!(!app.line_cache[0].truncated);
    assert_eq!(app.line_cache[0].lines.len(), 15);
    assert_eq!(document_text(&app).len(), 16);

    app.toggle_message_truncation(0);
    app.prepare_frame(40, 100);
    assert!(app.line_cache[0].truncated);
    assert_eq!(document_text(&app).len(), MAX_VISIBLE_LINES_PER_MESSAGE + 2);
}

#[test]
fn short_user_message_is_not_truncated() {
    let mut app = App::new();
    app.add_user_message(long_message(10));
    app.prepare_frame(40, 100);
    assert!(!app.line_cache[0].truncated);
    assert_eq!(app.line_cache[0].lines.len(), 10);
}

#[test]
fn streamed_assistant_text_is_never_truncated() {
    let mut app = App::new();
    let id = current_chat_id(&app);
    app.apply_fragment(&id, &long_message(30));
    app.prepare_frame(40, 100);
    assert!(!app.line_cache[0].truncated);
    assert_eq!(app.line_cache[0].lines.len(), 30);
}

#[test]
fn wrapping_splits_long_text() {
    let mut app = App::new();
    app.add_user_message("aaa bbb ccc ddd".to_string());
    app.prepare_frame(8, 100);
    let lines: Vec<String> = app.line_cache[0].lines.iter().map(line_text).collect();
    assert_eq!(lines, vec!["aaa bbb", "ccc ddd"]);
}

#[test]
fn rebuild_is_idempotent() {
    let mut app = App::new();
    app.add_user_message("hello\n```rs\nfn main() {}\n```\nbye".to_string());
    app.prepare_frame(30, 10);
    let first = document_text(&app);
    let first_map = app.document.line_to_message.clone();
    app.prepare_frame(30, 10);
    assert_eq!(document_text(&app), first);
    assert_eq!(app.document.line_to_message, first_map);
    app.need_rebuild_cache = true;
    app.prepare_frame(30, 10);
    assert_eq!(document_text(&app), first);
}

#[test]
fn zero_width_shows_nothing() {
    let mut app = App::new();
    app.add_user_message("hello".to_string());
    app.prepare_frame(0, 0);
    assert!(app.document.lines.is_empty());
    assert_eq!(app.viewport.cursor_line, 0);
    app.prepare_frame(20, 5);
    assert_eq!(document_text(&app), vec!["hello", ""]);
}

#[test]
fn document_has_separator_after_each_message() {
    let mut app = App::new();
    app.add_user_message("one".to_string());
    app.add_user_message("two".to_string());
    app.prepare_frame(20, 5);
    assert_eq!(document_text(&app), vec!["one", "", "two", ""]);
    assert_eq!(
        app.document.line_to_message,
        vec![(0, false), (0, false), (1, false), (1, false)]
    );
}

#[test]
fn cursor_follows_bottom_and_clamps() {
    let mut app = App::new();
    for i in 0..5 {
        app.add_user_message(format!("m{}", i));
    }
    app.prepare_frame(20, 4);
    assert_eq!(app.viewport.total_lines, 10);
    assert_eq!(app.viewport.cursor_line, 9);
    assert_eq!(app.viewport.scroll, 6);
    app.navigate(NavCommand::Up(3));
    assert_eq!(app.viewport.cursor_line, 6);
    assert!(!app.viewport.follow_bottom);
    app.navigate(NavCommand::Start);
    assert_eq!(app.viewport.cursor_line, 0);
    assert_eq!(app.viewport.scroll, 0);
    app.navigate(NavCommand::Down(100));
    assert_eq!(app.viewport.cursor_line, 9);
    assert_eq!(app.viewport.scroll, 6);
    app.navigate(NavCommand::PageUp);
    assert_eq!(app.viewport.cursor_line, 5);
    app.navigate(NavCommand::HalfPageDown);
    assert_eq!(app.viewport.cursor_line, 7);
    app.jump_to_last_message();
    assert!(app.viewport.follow_bottom);
    app.add_user_message("new".to_string());
    app.prepare_frame(20, 4);
    assert_eq!(app.viewport.total_lines, 12);
    assert_eq!(app.viewport.cursor_line, 11);
    assert_eq!(app.viewport.scroll, 8);
}

#[test]
fn scroll_not_forced_when_scrolled_away() {
    let mut app = App::new();
    for i in 0..5 {
        app.add_user_message(format!("m{}", i));
    }
    app.prepare_frame(20, 4);
    app.navigate(NavCommand::Start);
    app.add_user_message("new".to_string());
    app.prepare_frame(20, 4);
    assert_eq!(app.viewport.scroll, 0);
    assert_eq!(app.viewport.cursor_line, 0);
}

#[test]
fn cursor_stays_in_document_under_random_commands() {
    let mut v = Viewport::new(5);
    let mut seed: u64 = 12345;
    let mut next = || {
        seed = seed.wrapping_mul(6364136223846793005).wrapping_add(1442695040888963407);
        (seed >> 33) as usize
    };
    for _ in 0..2000 {
        let cmd = match next() % 10 {
            0 => NavCommand::Down(next() % 7),
            1 => NavCommand::Up(next() % 7),
            2 => NavCommand::HalfPageDown,
            3 => NavCommand::HalfPageUp,
            4 => NavCommand::PageDown,
            5 => NavCommand::PageUp,
            6 => NavCommand::Start,
            7 => NavCommand::End,
            8 => NavCommand::SetLines(next() % 30),
            _ => NavCommand::SetHeight(next() % 8),
        };
        v.apply(cmd);
        if v.total_lines > 0 {
            assert!(v.cursor_line < v.total_lines);
        } else {
            assert_eq!(v.cursor_line, 0);
        }
        assert!(v.scroll <= v.total_lines.saturating_sub(v.height));
    }
}

#[test]
fn deleting_the_displayed_chat_shrinks_the_document() {
    let mut app = App::new();
    for i in 0..5 {
        app.add_user_message(format!("m{}", i));
    }
    app.prepare_frame(20, 4);
    app.create_new_chat();
    app.add_user_message("x".to_string());
    app.select_chat(0);
    app.prepare_frame(20, 4);
    assert_eq!(app.viewport.cursor_line, 9);
    app.delete_chat(0);
    app.prepare_frame(20, 4);
    assert_eq!(app.viewport.total_lines, 2);
    assert!(app.viewport.cursor_line < 2);
}

#[test]
fn copy_hint_absent_past_the_shortcut_list() {
    let mut app = App::new();
    let text = (0..5).map(|_| "```\nx\n```").collect::<Vec<_>>().join("\n");
    app.add_user_message(text);
    app.prepare_frame(30, 100);
    let lines: Vec<String> = app.line_cache[0].lines.iter().map(line_text).collect();
    assert_eq!(lines.len(), 15);
    assert!(lines[2].starts_with("└ Copy [c] "));
    assert!(lines[11].starts_with("└ Copy [X] "));
    assert!(lines[14].starts_with("└──"));
    assert!(lines[0].starts_with("┌ code "));
}

#[test]
fn code_block_under_cursor() {
    let mut app = App::new();
    app.add_user_message("see\n```sh\nls\n```\n```\npwd\n```".to_string());
    app.prepare_frame(30, 100);
    app.navigate(NavCommand::Start);
    assert_eq!(app.message_at_cursor(), Some((0, false)));
    assert_eq!(app.code_block_at_cursor(0).unwrap().content, "ls");
    assert_eq!(app.code_block_at_cursor(1).unwrap().content, "pwd");
    assert!(app.code_block_at_cursor(2).is_none());
}

#[test]
fn new_app_has_one_empty_chat() {
    let app = App::new();
    assert_eq!(app.chats.len(), 1);
    assert_eq!(app.chats[0].title, "Chat 1");
    assert_eq!(app.chats[0].model, "OpenAI:gpt-4o");
    assert_eq!(app.chats[0].id.len(), 36);
    assert!(app.has_valid_chat());
    assert_eq!(app.current_model_name(), "OpenAI:gpt-4o");
}

#[test]
fn chats_are_numbered() {
    let mut app = App::new();
    app.create_new_chat();
    app.create_new_chat();
    assert_eq!(app.chats[2].title, "Chat 3");
    assert_eq!(app.current_chat, 2);
    assert_ne!(app.chats[0].id, app.chats[1].id);
    app.rename_chat(1, "Renamed".to_string());
    assert_eq!(app.chats[1].title, "Renamed");
}

#[test]
fn enabled_models_list_providers_then_custom() {
    let mut app = App::new();
    app.custom_models.push(CustomModel::Derived {
        provider: "OpenAI".to_string(),
        model: "o1".to_string(),
    });
    app.custom_models.push(CustomModel::Standalone {
        name: "local".to_string(),
        endpoint: "http://localhost".to_string(),
        model: "llama".to_string(),
        api_key: None,
        use_key_from: None,
    });
    let flat = app.enabled_models_flat();
    assert_eq!(flat.len(), 3 + 2 + 2);
    assert_eq!(flat[0], ("OpenAI".to_string(), "gpt-4o".to_string()));
    assert_eq!(flat[3], ("Grok".to_string(), "grok-3-latest".to_string()));
    assert_eq!(flat[5], ("OpenAI".to_string(), "o1".to_string()));
    assert_eq!(flat[6], ("Custom".to_string(), "local".to_string()));
}

#[test]
fn sidebar_toggle_moves_focus() {
    let mut app = App::new();
    app.toggle_sidebar();
    assert!(!app.sidebar_visible);
    assert_eq!(app.focus, meowi::session::Focus::Chat);
    app.toggle_sidebar();
    assert_eq!(app.focus, meowi::session::Focus::Sidebar);
}

#[test]
fn errors_set_and_clear() {
    let mut app = App::new();
    app.set_error("boom");
    assert_eq!(app.error_message.as_deref(), Some("boom"));
    app.clear_error();
    assert!(app.error_message.is_none());
}

#[test]
fn model_lists() {
    assert_eq!(openai_models(), vec!["gpt-4o", "gpt-4-turbo", "gpt-3.5-turbo"]);
    assert!(anthropic_models().is_empty());
    assert_eq!(grok_models(), vec!["grok-3-latest", "grok-3-mini-beta"]);
}

#[test]
fn default_settings() {
    let s = Settings::default();
    assert_eq!(s.providers.len(), 3);
    assert_eq!(s.providers[1].name, "Anthropic");
    assert_eq!(s.keybindings.copy_code_blocks, vec!["c", "C", "x", "X"]);
    assert_eq!(s.prompts.len(), 1);
    assert!(s.prompts[0].active);
    assert_eq!(s.prompts[0].content, "You are a helpful assistant.");
}

#[test]
fn masks_api_keys() {
    assert_eq!(mask_api_key("abcd"), "");
    assert_eq!(mask_api_key("sk-123456"), "3456");
    assert_eq!(mask_api_key(""), "");
}

#[test]
fn roles_and_messages() {
    assert_eq!(Role::User.as_str(), "user");
    assert_eq!(Role::Assistant.as_str(), "assistant");
    assert_eq!(Role::from_name("assistant"), Role::Assistant);
    assert_eq!(Role::from_name("system"), Role::User);
    let m = Message::new(Role::User, "hi");
    assert!(m.collapsed);
    assert!(!Message::new(Role::Assistant, "hi").collapsed);
    let p = Prompt::new("n", "c", false);
    assert_eq!(p.name, "n");
    let c = CustomModel::Derived { provider: "p".to_string(), model: "m".to_string() };
    assert_eq!(c.name(), "m");
}

#[test]
fn decimal_numbers() {
    assert_eq!(decimal_string(0), "0");
    assert_eq!(decimal_string(42), "42");
    assert_eq!(decimal_string(1000), "1000");
}

#[test]
fn unicode_whitespace_around_tags_and_fences() {
    let blocks = extract_code_blocks("```\u{A0}py\u{3000}\nx\n```\u{A0}\ny");
    assert_eq!(blocks.len(), 1);
    assert_eq!(blocks[0].language.as_deref(), Some("py"));
    assert_eq!(blocks[0].content, "x");
    let crlf = extract_code_blocks("a\r\n```c++\r\nint x;\r\n```\r\n");
    assert_eq!(crlf.len(), 1);
    assert_eq!(crlf[0].language.as_deref(), Some("c++"));
    assert_eq!(crlf[0].content, "int x;");
}

#[test]
fn deleting_the_last_chat_empties_the_document() {
    let mut app = App::new();
    app.add_user_message("hi".to_string());
    app.prepare_frame(20, 5);
    assert!(!app.document.lines.is_empty());
    app.delete_chat(0);
    assert!(app.line_cache.is_empty());
    assert!(app.document.lines.is_empty());
    assert!(app.document.line_to_message.is_empty());
}
