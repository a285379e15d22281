use tasdview::cursor::InputCursor;
use tasdview::keys::{Key, KeyPress};
use tasdview::record::Record;
use tasdview::state::{App, AppMode};

fn app_with_total(total: usize) -> App {
    let records = vec![Record::TotalFrames { frames: total }];
    App::new(records)
}

fn press(app: &mut App, c: char) {
    app.handle_key_event(KeyPress::plain(Key::Char(c)));
}

fn ctrl(app: &mut App, c: char) {
    app.handle_key_event(KeyPress::new(Key::Char(c), true));
}

#[test]
fn cursor_starts_at_zero() {
    let c = InputCursor::new();
    assert_eq!(c.input_index, 0);
    assert_eq!(c.total_inputs, 0);
}

#[test]
fn next_and_prev_clamp() {
    let mut c = InputCursor::new();
    c.total_inputs = 3;
    c.next();
    assert_eq!(c.input_index, 1);
    c.next();
    c.next();
    // Clamped at the last index.
    assert_eq!(c.input_index, 2);
    c.prev();
    c.prev();
    c.prev();
    // Clamped at zero.
    assert_eq!(c.input_index, 0);
}

#[test]
fn next_on_empty_is_a_no_op() {
    let mut c = InputCursor::new();
    c.next();
    assert_eq!(c.input_index, 0);
    c.prev();
    assert_eq!(c.input_index, 0);
}

#[test]
fn jump_to_clamps_past_the_end() {
    let mut c = InputCursor::new();
    c.total_inputs = 10;
    c.jump_to(4);
    assert_eq!(c.input_index, 4);
    c.jump_to(99);
    assert_eq!(c.input_index, 9);
}

#[test]
fn move_by_is_signed_and_clamped() {
    let mut c = InputCursor::new();
    c.total_inputs = 100;
    c.move_by(30);
    assert_eq!(c.input_index, 30);
    c.move_by(-10);
    assert_eq!(c.input_index, 20);
    c.move_by(-50);
    assert_eq!(c.input_index, 0);
    c.move_by(1000);
    assert_eq!(c.input_index, 99);
    c.move_by(0);
    assert_eq!(c.input_index, 99);
}

#[test]
fn advance_and_retreat_saturate() {
    let mut c = InputCursor::new();
    c.total_inputs = 5;
    c.advance(usize::MAX);
    assert_eq!(c.input_index, 4);
    c.retreat(usize::MAX);
    assert_eq!(c.input_index, 0);
}

#[test]
fn reconcile_scrolls_down_to_reveal_cursor() {
    let mut app = app_with_total(100);
    app.cursor.jump_to(25);
    app.update_input_window();
    // Cursor becomes the last visible row: 25 - 20 + 1.
    assert_eq!(app.input_window_start, 6);
    assert!(app.input_window_start <= 25);
    assert!(25 < app.input_window_start + app.display.max_visible_inputs);
}

#[test]
fn reconcile_scrolls_up_to_reveal_cursor() {
    let mut app = app_with_total(100);
    app.cursor.jump_to(50);
    app.update_input_window();
    app.cursor.jump_to(3);
    app.update_input_window();
    assert_eq!(app.input_window_start, 3);
}

#[test]
fn reconcile_never_scrolls_past_the_end() {
    let mut app = app_with_total(30);
    app.cursor.jump_to(29);
    app.update_input_window();
    // max start is total - height = 10.
    assert_eq!(app.input_window_start, 10);
}

#[test]
fn reconcile_with_short_sequence_stays_at_zero() {
    let mut app = app_with_total(5);
    app.cursor.jump_to(4);
    app.update_input_window();
    assert_eq!(app.input_window_start, 0);
}

#[test]
fn center_places_cursor_mid_window() {
    let mut app = app_with_total(100);
    app.cursor.jump_to(50);
    press(&mut app, 'z');
    // 50 - 20/2.
    assert_eq!(app.input_window_start, 40);
}

#[test]
fn center_near_the_start_clamps_to_zero() {
    let mut app = app_with_total(100);
    app.cursor.jump_to(3);
    press(&mut app, 'z');
    assert_eq!(app.input_window_start, 0);
}

#[test]
fn window_relative_motions() {
    let mut app = app_with_total(100);
    app.cursor.jump_to(50);
    app.update_input_window();
    let ws = app.input_window_start;
    press(&mut app, 'H');
    assert_eq!(app.cursor.input_index, ws);
    press(&mut app, 'M');
    assert_eq!(app.cursor.input_index, ws + 10);
    press(&mut app, 'L');
    assert_eq!(app.cursor.input_index, ws + 19);
    // H, M and L reposition without scrolling.
    assert_eq!(app.input_window_start, ws);
}

#[test]
fn line_motion_consumes_repeat_count() {
    // Pressing 5, 5, then j moves forward by exactly 55.
    let mut app = app_with_total(1000);
    press(&mut app, '5');
    assert_eq!(app.number_buffer, Some(5));
    press(&mut app, '5');
    assert_eq!(app.number_buffer, Some(55));
    press(&mut app, 'j');
    assert_eq!(app.cursor.input_index, 55);
    assert_eq!(app.number_buffer, None);
    // The count applied once, not to the next motion too.
    press(&mut app, 'j');
    assert_eq!(app.cursor.input_index, 56);
}

#[test]
fn page_and_half_page_motion() {
    let mut app = app_with_total(1000);
    ctrl(&mut app, 'd');
    assert_eq!(app.cursor.input_index, 10);
    ctrl(&mut app, 'u');
    assert_eq!(app.cursor.input_index, 0);
    ctrl(&mut app, 'f');
    assert_eq!(app.cursor.input_index, 20);
    ctrl(&mut app, 'b');
    assert_eq!(app.cursor.input_index, 0);
    app.handle_key_event(KeyPress::plain(Key::PageDown));
    assert_eq!(app.cursor.input_index, 20);
    app.handle_key_event(KeyPress::plain(Key::PageUp));
    assert_eq!(app.cursor.input_index, 0);
}

#[test]
fn page_keys_without_control_do_nothing() {
    let mut app = app_with_total(1000);
    press(&mut app, 'd');
    press(&mut app, 'u');
    press(&mut app, 'f');
    press(&mut app, 'b');
    assert_eq!(app.cursor.input_index, 0);
}

#[test]
fn full_page_scenario() {
    // TotalFrames 1000, one chunk of 500 on port 1, height 20, cursor 0.
    let mut inputs = Vec::new();
    inputs.resize(500, 0u8);
    let records = vec![
        Record::TotalFrames { frames: 1000 },
        Record::InputChunk { port: 1, inputs },
    ];
    let mut app = App::new(records);
    assert_eq!(app.cursor.total_inputs, 1000);
    assert_eq!(app.display.max_visible_inputs, 20);

    // Ctrl-f moves the cursor to 20 and scrolls the window to [1, 21).
    ctrl(&mut app, 'f');
    assert_eq!(app.cursor.input_index, 20);
    assert_eq!(app.input_window_start, 1);

    // G moves the cursor to 999 and the window to [980, 1000).
    press(&mut app, 'G');
    assert_eq!(app.cursor.input_index, 999);
    assert_eq!(app.input_window_start, 980);
}

#[test]
fn go_to_line_with_count() {
    let mut app = app_with_total(100);
    press(&mut app, '7');
    press(&mut app, 'G');
    // 1-indexed: 7G targets index 6.
    assert_eq!(app.cursor.input_index, 6);
    press(&mut app, '3');
    press(&mut app, 'g');
    assert_eq!(app.cursor.input_index, 2);
    // Without a count, g goes to the first line and G to the last.
    press(&mut app, 'G');
    assert_eq!(app.cursor.input_index, 99);
    press(&mut app, 'g');
    assert_eq!(app.cursor.input_index, 0);
}

#[test]
fn go_to_line_count_zero_or_one_targets_first() {
    let mut app = app_with_total(100);
    press(&mut app, '0');
    press(&mut app, 'G');
    assert_eq!(app.cursor.input_index, 0);
    press(&mut app, '5');
    press(&mut app, 'j');
    press(&mut app, '1');
    press(&mut app, 'G');
    assert_eq!(app.cursor.input_index, 0);
}

#[test]
fn escape_cancels_pending_count() {
    let mut app = app_with_total(100);
    press(&mut app, '9');
    assert_eq!(app.number_buffer, Some(9));
    app.handle_key_event(KeyPress::plain(Key::Esc));
    assert_eq!(app.number_buffer, None);
    press(&mut app, 'j');
    // The cancelled count did not apply.
    assert_eq!(app.cursor.input_index, 1);
}

#[test]
fn empty_stream_every_motion_is_a_no_op() {
    let mut app = App::new(Vec::new());
    assert_eq!(app.cursor.total_inputs, 0);
    for c in ['j', 'k', 'g', 'G', 'H', 'M', 'L', 'z'] {
        press(&mut app, c);
        assert_eq!(app.cursor.input_index, 0);
        assert_eq!(app.input_window_start, 0);
    }
    for c in ['d', 'u', 'f', 'b'] {
        ctrl(&mut app, c);
        assert_eq!(app.cursor.input_index, 0);
        assert_eq!(app.input_window_start, 0);
    }
    for k in [Key::Down, Key::Up, Key::PageDown, Key::PageUp] {
        app.handle_key_event(KeyPress::plain(k));
        assert_eq!(app.cursor.input_index, 0);
        assert_eq!(app.input_window_start, 0);
    }
}

#[test]
fn quit_key_sets_exit_flag() {
    let mut app = app_with_total(10);
    assert!(!app.exit);
    press(&mut app, 'q');
    assert!(app.exit);
}

#[test]
fn debug_toggle_flips() {
    let mut app = app_with_total(10);
    assert!(!app.display.show_debug);
    press(&mut app, 'D');
    assert!(app.display.show_debug);
    press(&mut app, 'D');
    assert!(!app.display.show_debug);
}

#[test]
fn help_mode_round_trip() {
    let mut app = app_with_total(10);
    press(&mut app, '?');
    assert_eq!(app.mode, AppMode::Help);
    // Other keys are ignored in help mode.
    press(&mut app, 'j');
    assert_eq!(app.cursor.input_index, 0);
    assert_eq!(app.mode, AppMode::Help);
    press(&mut app, '?');
    assert_eq!(app.mode, AppMode::Normal);
}

#[test]
fn help_mode_leaves_on_q_and_escape() {
    let mut app = app_with_total(10);
    press(&mut app, '?');
    press(&mut app, 'q');
    assert_eq!(app.mode, AppMode::Normal);
    assert!(!app.exit);
    press(&mut app, '?');
    app.handle_key_event(KeyPress::plain(Key::Esc));
    assert_eq!(app.mode, AppMode::Normal);
}

#[test]
fn unknown_keys_are_ignored() {
    let mut app = app_with_total(10);
    press(&mut app, 'x');
    app.handle_key_event(KeyPress::plain(Key::Other));
    assert_eq!(app.cursor.input_index, 0);
    assert_eq!(app.mode, AppMode::Normal);
    assert!(!app.exit);
}

#[test]
fn height_change_is_respected_on_reconcile() {
    let mut app = app_with_total(100);
    app.cursor.jump_to(50);
    app.display.max_visible_inputs = 5;
    app.update_input_window();
    assert_eq!(app.input_window_start, 46);
    assert!(app.input_window_start <= 50);
    assert!(50 < app.input_window_start + 5);
}
