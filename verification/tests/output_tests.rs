use owo_colors::OwoColorize;
use securechat::ansi::{badge, bold, fg, highlight};
use securechat::message::Message;
use securechat::output::{message_text, render, render_printable, Label, Printable};

#[test]
fn label_badges_match_owo_colors() {
    assert_eq!(Label::Warn.get_ansi(), " WARN ".black().on_yellow().bold().to_string());
    assert_eq!(Label::Debug.get_ansi(), " DEBUG ".black().on_bright_black().bold().to_string());
    assert_eq!(Label::Input.get_ansi(), " INPUT ".black().on_bright_blue().bold().to_string());
    assert_eq!(Label::Info.get_ansi(), " INFO ".white().on_green().bold().to_string());
    assert_eq!(Label::Error.get_ansi(), " ERROR ".black().on_red().bold().to_string());
    assert_eq!(Label::Unlabeled.get_ansi(), "");
}

#[test]
fn badge_has_exact_escape_sequences() {
    assert_eq!(badge("30", "43", " WARN "), "\x1b[1m\x1b[30;43m WARN \x1b[0m\x1b[0m");
}

#[test]
fn styles_match_owo_colors() {
    assert_eq!(highlight("bob"), "bob".yellow().bold().to_string());
    assert_eq!(fg("33", "id"), "id".yellow().to_string());
    assert_eq!(fg("31", "x"), "x".red().to_string());
    assert_eq!(bold("b"), "\x1b[1mb\x1b[0m");
}

#[test]
fn printable_conversions_are_unlabeled() {
    match Printable::from("hi") {
        Printable::String { s, label } => {
            assert_eq!(s, "hi");
            assert_eq!(label, Label::Unlabeled);
        }
        _ => panic!("expected a string"),
    }
    match Printable::from(String::from("yo")) {
        Printable::String { s, label } => {
            assert_eq!(s, "yo");
            assert_eq!(label, Label::Unlabeled);
        }
        _ => panic!("expected a string"),
    }
    match Printable::from(Message::AssignId { id: "x".into() }) {
        Printable::Message { msg, label } => {
            assert_eq!(msg, Message::AssignId { id: "x".into() });
            assert_eq!(label, Label::Unlabeled);
        }
        _ => panic!("expected a message"),
    }
}

#[test]
fn with_label_relabels_and_keeps_content() {
    match Printable::from("text").with_label(Label::Warn) {
        Printable::String { s, label } => {
            assert_eq!(s, "text");
            assert_eq!(label, Label::Warn);
        }
        _ => panic!("expected a string"),
    }
}

#[test]
fn debug_lines_are_hidden_unless_debug_is_on() {
    assert!(render("x", Label::Debug, "", false, "2024-01-01 00:00:00").is_empty());
    assert!(!render("x", Label::Debug, "", true, "2024-01-01 00:00:00").is_empty());
}

#[test]
fn render_single_line() {
    let now = "2024-01-01 12:00:00";
    let ops = render("hello", Label::Info, "typed", false, now);
    let stamp = format!(" {} ", now).black().on_yellow().bold().to_string();
    assert_eq!(ops.len(), 3);
    assert!(ops[0].clear);
    assert_eq!(ops[0].text, format!(" {} ", stamp));
    assert!(!ops[1].clear);
    assert_eq!(ops[1].text, format!("{} hello\n", Label::Info.get_ansi()));
    assert!(!ops[2].clear);
    assert_eq!(ops[2].text, format!("{} typed", Label::Input.get_ansi()));
}

#[test]
fn render_continuation_lines_are_indented() {
    let now = "2024-01-01 12:00:00";
    let ops = render("a\r\nb\nc\n", Label::Warn, "", false, now);
    let stamp = format!(" {} ", now).black().on_yellow().bold().to_string();
    let width = ansi_width::ansi_width(&stamp) + 2 + ansi_width::ansi_width(&Label::Warn.get_ansi());
    assert_eq!(width, 21 + 2 + 6);
    assert_eq!(ops.len(), 5);
    assert_eq!(ops[1].text, format!("{} a\n", Label::Warn.get_ansi()));
    assert!(ops[2].clear);
    assert_eq!(ops[2].text, format!("{} b\n", " ".repeat(width)));
    assert_eq!(ops[3].text, format!("{} c\n", " ".repeat(width)));
}

#[test]
fn render_empty_text_only_redraws_prompt() {
    let ops = render("", Label::Input, "abc", false, "t");
    assert_eq!(ops.len(), 2);
    assert_eq!(ops[1].text, format!("{} abc", Label::Input.get_ansi()));
}

#[test]
fn messages_shown_on_screen() {
    let join = Message::AnnounceJoin { id: "p1".into(), username: "bob".into() };
    assert_eq!(message_text(&join), Some(format!("{} has joined the chat", "p1".yellow())));
    let assign = Message::AssignId { id: "me".into() };
    assert_eq!(message_text(&assign), Some(format!("You have been assigned the ID: {}", "me".yellow())));
    let other = Message::Authenticate { access_token: "t".into() };
    assert_eq!(message_text(&other), None);
    let p = Printable::Message { msg: other, label: Label::Info };
    assert!(render_printable(&p, "", true, "t").is_empty());
    let q = Printable::Message { msg: assign, label: Label::Info };
    assert_eq!(render_printable(&q, "", true, "t").len(), 3);
}
