use canvas_demos::game::Direction;
use canvas_demos::input::command_for_key;
use canvas_demos::input::same_text;

#[test]
fn keys_and_their_commands() {
    assert_eq!(command_for_key("ArrowUp"), Some((Direction::Up, 1)));
    assert_eq!(command_for_key("ArrowDown"), Some((Direction::Down, 1)));
    assert_eq!(command_for_key("j"), Some((Direction::Up, 0)));
    assert_eq!(command_for_key("k"), Some((Direction::Down, 0)));
    assert_eq!(command_for_key("l"), None);
    assert_eq!(command_for_key(""), None);
    assert_eq!(command_for_key("ArrowLeft"), None);
    assert_eq!(command_for_key("ArrowUp "), None);
    assert_eq!(command_for_key("arrowdown"), None);
    assert_eq!(command_for_key("jk"), None);
}

#[test]
fn same_text_compares_characters() {
    assert!(same_text("", ""));
    assert!(same_text("pong", "pong"));
    assert!(!same_text("pong", "ping"));
    assert!(!same_text("pong", "pon"));
    assert!(!same_text("", "p"));
    assert!(same_text("h\u{e9}llo", "h\u{e9}llo"));
    assert!(!same_text("h\u{e9}llo", "hello"));
}
