use tasdview::command::{parse_command, Command};
use tasdview::keys::{Key, KeyPress};
use tasdview::record::Record;
use tasdview::state::{App, AppMode};

fn app_with_total(total: usize) -> App {
    App::new(vec![Record::TotalFrames { frames: total }])
}

fn press(app: &mut App, c: char) {
    app.handle_key_event(KeyPress::plain(Key::Char(c)));
}

fn chars(s: &str) -> Vec<char> {
    s.chars().collect()
}

#[test]
fn consume_returns_one_when_no_digits_were_fed() {
    let mut app = app_with_total(10);
    assert_eq!(app.take_number_buffer(), 1);
    assert_eq!(app.number_buffer, None);
}

#[test]
fn consume_returns_the_accumulated_value_and_clears() {
    let mut app = app_with_total(10);
    app.handle_digit(1);
    app.handle_digit(0);
    app.handle_digit(7);
    assert_eq!(app.number_buffer, Some(107));
    assert_eq!(app.take_number_buffer(), 107);
    assert_eq!(app.number_buffer, None);
    // One-shot: the next consume is back to 1.
    assert_eq!(app.take_number_buffer(), 1);
}

#[test]
fn digits_saturate_instead_of_wrapping() {
    let mut app = app_with_total(10);
    for _ in 0..30 {
        app.handle_digit(9);
    }
    assert_eq!(app.number_buffer, Some(usize::MAX));
}

#[test]
fn parse_quit_commands() {
    assert_eq!(parse_command(&chars("q")), Command::Quit);
    assert_eq!(parse_command(&chars("quit")), Command::Quit);
    assert_eq!(parse_command(&chars("  quit  ")), Command::Quit);
    assert_eq!(parse_command(&chars("quitt")), Command::Nothing);
    assert_eq!(parse_command(&chars("Q")), Command::Nothing);
}

#[test]
fn parse_line_numbers_one_indexed() {
    assert_eq!(parse_command(&chars("42")), Command::Jump { target: 41 });
    assert_eq!(parse_command(&chars("1")), Command::Jump { target: 0 });
    assert_eq!(parse_command(&chars("0")), Command::Jump { target: 0 });
    assert_eq!(parse_command(&chars(" 7 ")), Command::Jump { target: 6 });
    assert_eq!(parse_command(&chars("007")), Command::Jump { target: 6 });
}

#[test]
fn parse_rejects_non_numbers() {
    assert_eq!(parse_command(&chars("")), Command::Nothing);
    assert_eq!(parse_command(&chars("   ")), Command::Nothing);
    assert_eq!(parse_command(&chars("4x2")), Command::Nothing);
    assert_eq!(parse_command(&chars("-3")), Command::Nothing);
    assert_eq!(parse_command(&chars("4 2")), Command::Nothing);
}

#[test]
fn parse_rejects_overflowing_numbers() {
    assert_eq!(
        parse_command(&chars("99999999999999999999999999")),
        Command::Nothing
    );
    assert_eq!(
        parse_command(&vec!['1', '8', '4', '4', '6', '7', '4', '4', '0', '7', '3', '7', '0',
            '9', '5', '5', '1', '6', '1', '5']),
        Command::Jump { target: usize::MAX - 1 }
    );
}

#[test]
fn command_mode_jump_scenario() {
    // Entering command mode, typing 42, pressing Enter jumps to index 41.
    let mut app = app_with_total(1000);
    press(&mut app, ':');
    assert_eq!(app.mode, AppMode::Command);
    press(&mut app, '4');
    press(&mut app, '2');
    assert_eq!(app.command_buffer, vec!['4', '2']);
    app.handle_key_event(KeyPress::plain(Key::Enter));
    assert_eq!(app.mode, AppMode::Normal);
    assert_eq!(app.cursor.input_index, 41);
    assert!(app.command_buffer.is_empty());
}

#[test]
fn command_jump_clamps_past_the_end() {
    let mut app = app_with_total(10);
    press(&mut app, ':');
    press(&mut app, '9');
    press(&mut app, '9');
    app.handle_key_event(KeyPress::plain(Key::Enter));
    assert_eq!(app.cursor.input_index, 9);
}

#[test]
fn command_quit_sets_exit() {
    let mut app = app_with_total(10);
    press(&mut app, ':');
    press(&mut app, 'q');
    app.handle_key_event(KeyPress::plain(Key::Enter));
    assert!(app.exit);
    assert_eq!(app.mode, AppMode::Normal);
}

#[test]
fn command_unknown_text_is_a_no_op() {
    let mut app = app_with_total(10);
    press(&mut app, '3');
    press(&mut app, 'j');
    press(&mut app, ':');
    press(&mut app, 'w');
    press(&mut app, 'h');
    press(&mut app, 'o');
    app.handle_key_event(KeyPress::plain(Key::Enter));
    assert_eq!(app.mode, AppMode::Normal);
    assert_eq!(app.cursor.input_index, 3);
    assert!(!app.exit);
    assert!(app.command_buffer.is_empty());
}

#[test]
fn command_backspace_edits_the_buffer() {
    let mut app = app_with_total(100);
    press(&mut app, ':');
    press(&mut app, '4');
    press(&mut app, '9');
    app.handle_key_event(KeyPress::plain(Key::Backspace));
    assert_eq!(app.command_buffer, vec!['4']);
    app.handle_key_event(KeyPress::plain(Key::Backspace));
    app.handle_key_event(KeyPress::plain(Key::Backspace));
    assert!(app.command_buffer.is_empty());
    press(&mut app, '2');
    app.handle_key_event(KeyPress::plain(Key::Enter));
    assert_eq!(app.cursor.input_index, 1);
}

#[test]
fn command_escape_cancels_without_executing() {
    let mut app = app_with_total(100);
    press(&mut app, ':');
    press(&mut app, '9');
    app.handle_key_event(KeyPress::plain(Key::Esc));
    assert_eq!(app.mode, AppMode::Normal);
    assert_eq!(app.cursor.input_index, 0);
    assert!(app.command_buffer.is_empty());
}

#[test]
fn colon_clears_a_stale_buffer() {
    let mut app = app_with_total(100);
    press(&mut app, ':');
    press(&mut app, '5');
    app.handle_key_event(KeyPress::plain(Key::Esc));
    press(&mut app, ':');
    assert!(app.command_buffer.is_empty());
}

#[test]
fn input_mode_only_accepts_cancel() {
    let mut app = app_with_total(10);
    app.mode = AppMode::Input;
    press(&mut app, 'j');
    assert_eq!(app.mode, AppMode::Input);
    assert_eq!(app.cursor.input_index, 0);
    app.handle_key_event(KeyPress::plain(Key::Esc));
    assert_eq!(app.mode, AppMode::Normal);
}
