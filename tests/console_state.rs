use subnet_vox::console_graphics::{matching_commands, GraphicsEngine, InputAction, Key};
use subnet_vox::message::Message;

fn engine() -> GraphicsEngine {
    GraphicsEngine::new(3, 80, 24)
}

fn press(e: &mut GraphicsEngine, input: &mut String, key: Key) -> InputAction {
    e.handle_key(input, key)
}

fn type_line(e: &mut GraphicsEngine, text: &str) {
    let mut input = String::new();
    for c in text.chars() {
        press(e, &mut input, Key::Char(c));
    }
    assert!(matches!(press(e, &mut input, Key::Enter), InputAction::Submit));
}

#[test]
fn common_prefix_of_several() {
    assert_eq!(GraphicsEngine::find_common_prefix(&[]), None);
    assert_eq!(GraphicsEngine::find_common_prefix(&["abc"]), Some("abc".to_string()));
    assert_eq!(GraphicsEngine::find_common_prefix(&[""]), Some(String::new()));
    assert_eq!(
        GraphicsEngine::find_common_prefix(&["/clear", "/client", "/cl"]),
        Some("/cl".to_string())
    );
    assert_eq!(GraphicsEngine::find_common_prefix(&["abc", "xbc"]), None);
    assert_eq!(GraphicsEngine::find_common_prefix(&["same", "same"]), Some("same".to_string()));
    assert_eq!(GraphicsEngine::find_common_prefix(&["ab", ""]), None);
}

#[test]
fn commands_matching_a_prefix() {
    assert_eq!(matching_commands("/"), vec!["/help", "/quit", "/clear", "/users", "/ping"]);
    assert_eq!(matching_commands("/u"), vec!["/users"]);
    assert!(matching_commands("/z").is_empty());
}

#[test]
fn message_lines_are_formatted_and_bounded() {
    let mut e = engine();
    let local = Message::new("hey".to_string(), "me".to_string(), "local".to_string());
    let remote = Message::new("yo".to_string(), "bob".to_string(), "10.0.0.2".to_string());
    e.add_message_at(&local, "12:00:01");
    e.add_message_at(&remote, "12:00:02");
    assert_eq!(e.message_lines()[0], "[12:00:01] YOU >>> me: hey");
    assert_eq!(e.message_lines()[1], "[12:00:02] 10.0.0.2 >>> bob: yo");
    e.add_message_at(&remote, "12:00:03");
    e.add_message_at(&remote, "12:00:04");
    assert_eq!(e.message_lines().len(), 3);
    assert_eq!(e.message_lines()[0], "[12:00:02] 10.0.0.2 >>> bob: yo");
    e.add_message(&local);
    assert_eq!(e.message_lines().len(), 3);
    assert!(e.message_lines()[2].ends_with("] YOU >>> me: hey"));
}

#[test]
fn zero_line_engine_keeps_nothing() {
    let mut e = GraphicsEngine::new(0, 80, 24);
    let m = Message::new("a".to_string(), "b".to_string(), "c".to_string());
    e.add_message_at(&m, "t");
    assert!(e.message_lines().is_empty());
}

#[test]
fn typing_echoes_and_backspace_erases() {
    let mut e = engine();
    let mut input = String::new();
    assert!(matches!(press(&mut e, &mut input, Key::Char('h')), InputAction::Echo('h')));
    assert!(matches!(press(&mut e, &mut input, Key::Control('a')), InputAction::Echo('a')));
    assert_eq!(input, "ha");
    assert!(matches!(press(&mut e, &mut input, Key::Backspace), InputAction::EraseLast));
    assert_eq!(input, "h");
    press(&mut e, &mut input, Key::Backspace);
    assert!(matches!(press(&mut e, &mut input, Key::Backspace), InputAction::Nothing));
    assert_eq!(input, "");
}

#[test]
fn exit_and_redraw_keys() {
    let mut e = engine();
    let mut input = "x".to_string();
    assert!(matches!(press(&mut e, &mut input, Key::Control('q')), InputAction::Exit));
    assert!(matches!(press(&mut e, &mut input, Key::Control('c')), InputAction::Exit));
    assert!(matches!(press(&mut e, &mut input, Key::Esc), InputAction::Exit));
    assert!(matches!(press(&mut e, &mut input, Key::Control('l')), InputAction::Redraw));
    assert!(matches!(press(&mut e, &mut input, Key::Other), InputAction::Nothing));
    assert_eq!(input, "x");
}

#[test]
fn history_browsing() {
    let mut e = engine();
    type_line(&mut e, "one");
    type_line(&mut e, "two");
    type_line(&mut e, "two");
    let mut input = "draft".to_string();
    assert!(matches!(press(&mut e, &mut input, Key::Up), InputAction::ShowInput));
    assert_eq!(input, "two");
    press(&mut e, &mut input, Key::Up);
    assert_eq!(input, "one");
    assert!(matches!(press(&mut e, &mut input, Key::Up), InputAction::Nothing));
    assert_eq!(input, "one");
    press(&mut e, &mut input, Key::Down);
    assert_eq!(input, "two");
    press(&mut e, &mut input, Key::Down);
    assert_eq!(input, "draft");
    assert!(matches!(press(&mut e, &mut input, Key::Down), InputAction::Nothing));
}

#[test]
fn empty_line_is_not_remembered() {
    let mut e = engine();
    let mut input = String::new();
    assert!(matches!(press(&mut e, &mut input, Key::Enter), InputAction::Submit));
    assert!(matches!(press(&mut e, &mut input, Key::Up), InputAction::Nothing));
}

#[test]
fn history_keeps_fifty_lines() {
    let mut e = engine();
    for i in 0..52 {
        type_line(&mut e, &format!("line{}", i));
    }
    let mut input = String::new();
    for _ in 0..50 {
        press(&mut e, &mut input, Key::Up);
    }
    assert_eq!(input, "line2");
    assert!(matches!(press(&mut e, &mut input, Key::Up), InputAction::Nothing));
}

#[test]
fn tab_completes_commands() {
    let mut e = engine();
    let mut input = "/he".to_string();
    assert!(matches!(press(&mut e, &mut input, Key::Tab), InputAction::ShowInput));
    assert_eq!(input, "/help");
    let mut input = "/".to_string();
    match press(&mut e, &mut input, Key::Tab) {
        InputAction::ShowMatches { matches, input_changed } => {
            assert_eq!(matches, "/help  /quit  /clear  /users  /ping");
            assert!(!input_changed);
        }
        other => panic!("unexpected {:?}", other),
    }
    assert_eq!(input, "/");
    let mut input = "/x".to_string();
    assert!(matches!(press(&mut e, &mut input, Key::Tab), InputAction::Nothing));
    let mut input = "he".to_string();
    assert!(matches!(press(&mut e, &mut input, Key::Tab), InputAction::Nothing));
    assert_eq!(input, "he");
}

#[test]
fn resize_is_noticed_once() {
    let mut e = engine();
    assert!(!e.resolution_changed());
    e.update_resolution(100, 30);
    assert_eq!((e.width(), e.height()), (100, 30));
    assert!(e.resolution_changed());
    assert!(!e.resolution_changed());
}

#[test]
fn rows_count_from_the_bottom() {
    let e = engine();
    assert_eq!(e.row_of_line(0), Some(23));
    assert_eq!(e.row_of_line(2), Some(21));
    assert_eq!(e.row_of_line(24), None);
}

#[test]
fn status_text_is_cut_to_width() {
    let e = engine();
    let full = e.status_text("12:34:56", "2024-01-02");
    assert_eq!(
        full,
        " \u{1f552} 12:34:56 | \u{1f4c5} 2024-01-02 | \u{1f4fa} 80x24 | \u{2328}\u{fe0f}  Ctrl+L: Clear | \u{2191}\u{2193}: History "
    );
    let narrow = GraphicsEngine::new(3, 10, 5);
    assert_eq!(narrow.status_text("12:34:56", "2024-01-02"), " \u{1f552} 12:34:5");
    assert_eq!(narrow.status_bar().chars().count(), 10);
}
