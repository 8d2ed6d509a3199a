use securechat::console::{handle_key_event, is_exit_command, route_command, Command, KeyCode, KeyOutcome, KeyPress};
use securechat::util::{classify, ctrl_w_delete, CharKind};

#[test]
fn ctrl_w_removes_last_word() {
    assert_eq!(ctrl_w_delete("hello world"), "hello ");
}

#[test]
fn ctrl_w_removes_trailing_whitespace_run() {
    assert_eq!(ctrl_w_delete("hello   "), "hello");
}

#[test]
fn ctrl_w_on_empty_input_is_empty() {
    assert_eq!(ctrl_w_delete(""), "");
}

#[test]
fn ctrl_w_stops_at_punctuation() {
    assert_eq!(ctrl_w_delete("foo.bar"), "foo.");
    assert_eq!(ctrl_w_delete("abc!!"), "abc");
}

#[test]
fn ctrl_w_treats_underscore_and_digits_as_word() {
    assert_eq!(ctrl_w_delete("say a_b9"), "say ");
    assert_eq!(ctrl_w_delete("a_b"), "");
}

#[test]
fn ctrl_w_handles_unicode_letters() {
    assert_eq!(ctrl_w_delete("grüße welt"), "grüße ");
    assert_eq!(ctrl_w_delete("x\u{3000}"), "x");
}

#[test]
fn ctrl_w_keeps_prefix_and_removes_same_kind_suffix() {
    let input = "let x = a+b;;";
    let out = ctrl_w_delete(input);
    assert!(input.starts_with(&out));
    assert_eq!(out, "let x = a+b");
}

#[test]
fn classify_kinds() {
    assert_eq!(classify(' '), CharKind::Whitespace);
    assert_eq!(classify('\t'), CharKind::Whitespace);
    assert_eq!(classify('a'), CharKind::Keyword);
    assert_eq!(classify('7'), CharKind::Keyword);
    assert_eq!(classify('_'), CharKind::Keyword);
    assert_eq!(classify('-'), CharKind::Punctuation);
}

#[test]
fn keys_edit_the_input_line() {
    let mut input = String::from("hi");
    let typed = handle_key_event(KeyPress { code: KeyCode::Char('!'), control: false }, &mut input);
    assert_eq!(typed, KeyOutcome::Redraw);
    assert_eq!(input, "hi!");
    let back = handle_key_event(KeyPress { code: KeyCode::Backspace, control: false }, &mut input);
    assert_eq!(back, KeyOutcome::Redraw);
    assert_eq!(input, "hi");
    let mut empty = String::new();
    handle_key_event(KeyPress { code: KeyCode::Backspace, control: false }, &mut empty);
    assert_eq!(empty, "");
}

#[test]
fn control_keys() {
    let mut input = String::from("one two");
    assert_eq!(handle_key_event(KeyPress { code: KeyCode::Char('w'), control: true }, &mut input), KeyOutcome::Redraw);
    assert_eq!(input, "one ");
    assert_eq!(handle_key_event(KeyPress { code: KeyCode::Char('c'), control: true }, &mut input), KeyOutcome::Quit);
    assert_eq!(input, "one ");
    assert_eq!(handle_key_event(KeyPress { code: KeyCode::Enter, control: false }, &mut input), KeyOutcome::Submit);
    assert_eq!(handle_key_event(KeyPress { code: KeyCode::Other, control: false }, &mut input), KeyOutcome::Ignore);
    assert_eq!(handle_key_event(KeyPress { code: KeyCode::Char('a'), control: true }, &mut input), KeyOutcome::Redraw);
    assert_eq!(input, "one a");
}

#[test]
fn exit_command_ignores_surrounding_whitespace() {
    assert!(is_exit_command("exit"));
    assert!(is_exit_command("  exit \t"));
    assert!(!is_exit_command("exit now"));
    assert!(!is_exit_command("/exit"));
}

#[test]
fn commands_are_routed() {
    assert_eq!(route_command("/host", false, false), Command::Host);
    assert_eq!(route_command("/hostname", false, false), Command::Host);
    assert_eq!(route_command("/host", true, false), Command::Unrecognized);
    assert_eq!(route_command("/connect", false, false), Command::Connect);
    assert_eq!(route_command("/connect", false, true), Command::Unrecognized);
    assert_eq!(route_command("/quit", false, true), Command::Unrecognized);
    assert_eq!(route_command("hello", false, true), Command::Chat);
    assert_eq!(route_command("hello", true, false), Command::NotConnected);
    assert_eq!(route_command("", false, false), Command::NotConnected);
}
