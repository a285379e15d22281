//! The session state and its mode state machine: browsing, command-line
//! entry, help overlay, and a reserved text-input mode. One key press is
//! dispatched at a time; every motion is followed by a viewport
//! reconciliation so cursor and window never drift apart.

use vstd::prelude::*;
use crate::cursor::{InputCursor, jump_target, move_target};
use crate::record::{Record, clamp_usize, detect_ports, count_inputs, spec_total, ports_view};
use crate::keys::{Key, KeyPress, digit_of, spec_digit_of};
use crate::command::{Command, parse_command, spec_parse_command};

verus! {

/// Current view/mode of the application.
#[derive(Debug, Clone, Copy, PartialEq, Eq, Structural)]
pub enum AppMode {
    /// Normal (browsing) navigation mode.
    Normal,
    /// Text-input mode; reserved for future extension, it only accepts a
    /// cancel.
    Input,
    /// Help overlay.
    Help,
    /// Command-line entry.
    Command,
}

/// Display settings the navigation core reads: the debug toggle and the
/// window height, which the renderer recomputes from the available rows and
/// writes back before each reconciliation.
#[derive(Debug, Clone, Copy, PartialEq, Eq, Structural)]
pub struct DisplaySettings {
    /// Show raw record/debug information.
    pub show_debug: bool,
    /// Rows of the visible input window; always at least 1.
    pub max_visible_inputs: usize,
}

impl DisplaySettings {
    pub fn new() -> (r: Self)
        ensures
            !r.show_debug,
            r.max_visible_inputs == 20,
    {
        Self { show_debug: false, max_visible_inputs: 20 }
    }
}

/// Where the visible window starts after reconciling it with the cursor:
/// scroll up to reveal a cursor above the window, scroll down to make it the
/// last visible row when it is below, then never past either end.
pub open spec fn reconcile_start(ws: int, pos: int, total: int, h: int) -> int {
    let moved = if pos < ws {
        pos
    } else if pos >= ws + h {
        pos - h + 1
    } else {
        ws
    };
    let max_start = if total >= h {
        total - h
    } else {
        0
    };
    if moved > max_start {
        max_start
    } else {
        moved
    }
}

/// Where the visible window starts after centering it on the cursor.
pub open spec fn center_start(pos: int, total: int, h: int) -> int {
    let centered = if pos >= h / 2 {
        pos - h / 2
    } else {
        0
    };
    let max_start = if total >= h {
        total - h
    } else {
        0
    };
    if centered > max_start {
        max_start
    } else {
        centered
    }
}

/// Stores the application state.
pub struct App {
    /// The decoded record stream; immutable for the session.
    pub records: Vec<Record>,
    /// Current application mode.
    pub mode: AppMode,
    /// Should the application exit.
    pub exit: bool,
    /// Position in the input list.
    pub cursor: InputCursor,
    /// Visible inputs window (start index).
    pub input_window_start: usize,
    /// Display settings.
    pub display: DisplaySettings,
    /// Available ports, strictly ascending, never empty.
    pub ports: Vec<u8>,
    /// Vim-style numeric prefix for the next motion.
    pub number_buffer: Option<usize>,
    /// Command-line buffer; meaningful only in command mode.
    pub command_buffer: Vec<char>,
}

impl App {
    /// The session invariant: the cursor is in range, the window start never
    /// lies past the end of the sequence, and the window has at least one
    /// row.
    pub open spec fn wf(self) -> bool {
        &&& self.cursor.wf()
        &&& self.input_window_start <= self.cursor.total_inputs
        &&& self.display.max_visible_inputs >= 1
    }

    /// Build the session state from the decoded records: derive the port
    /// list and the total input count, and start browsing at the first
    /// input.
    pub fn new(records: Vec<Record>) -> (r: Self)
        ensures
            r.records@ == records@,
            ports_view(records@, r.ports@),
            r.cursor.input_index == 0,
            r.cursor.total_inputs as nat == clamp_usize(spec_total(records@)),
            r.mode == AppMode::Normal,
            !r.exit,
            r.input_window_start == 0,
            !r.display.show_debug,
            r.display.max_visible_inputs == 20,
            r.number_buffer is None,
            r.command_buffer@ == Seq::<char>::empty(),
            r.wf(),
    {
        let ports = detect_ports(&records);
        let total_inputs = count_inputs(&records);
        let mut cursor = InputCursor::new();
        cursor.total_inputs = total_inputs;
        Self {
            records,
            mode: AppMode::Normal,
            exit: false,
            cursor,
            input_window_start: 0,
            display: DisplaySettings::new(),
            ports,
            number_buffer: None,
            command_buffer: Vec::new(),
        }
    }

    /// Scroll the visible window as far as needed — and no further — to
    /// keep the cursor visible, never past either end of the sequence.
    pub fn update_input_window(&mut self)
        requires
            old(self).cursor.wf(),
        ensures
            final(self).input_window_start == reconcile_start(
                old(self).input_window_start as int,
                old(self).cursor.input_index as int,
                old(self).cursor.total_inputs as int,
                old(self).display.max_visible_inputs as int,
            ),
            final(self).records == old(self).records,
            final(self).mode == old(self).mode,
            final(self).exit == old(self).exit,
            final(self).cursor == old(self).cursor,
            final(self).display == old(self).display,
            final(self).ports == old(self).ports,
            final(self).number_buffer == old(self).number_buffer,
            final(self).command_buffer == old(self).command_buffer,
    {
        if self.cursor.input_index < self.input_window_start {
            self.input_window_start = self.cursor.input_index;
        } else if self.cursor.input_index
            >= self.input_window_start.saturating_add(self.display.max_visible_inputs) {
            self.input_window_start = self.cursor.input_index.saturating_sub(
                self.display.max_visible_inputs,
            ) + 1;
        }

        let max_start = self.cursor.total_inputs.saturating_sub(self.display.max_visible_inputs);
        if self.input_window_start > max_start {
            self.input_window_start = max_start;
        }
    }

    /// Center the visible window on the cursor, never past either end.
    pub fn center_cursor(&mut self)
        requires
            old(self).cursor.wf(),
        ensures
            final(self).input_window_start == center_start(
                old(self).cursor.input_index as int,
                old(self).cursor.total_inputs as int,
                old(self).display.max_visible_inputs as int,
            ),
            final(self).records == old(self).records,
            final(self).mode == old(self).mode,
            final(self).exit == old(self).exit,
            final(self).cursor == old(self).cursor,
            final(self).display == old(self).display,
            final(self).ports == old(self).ports,
            final(self).number_buffer == old(self).number_buffer,
            final(self).command_buffer == old(self).command_buffer,
    {
        let half_height = self.display.max_visible_inputs / 2;
        if self.cursor.input_index >= half_height {
            self.input_window_start = self.cursor.input_index - half_height;
        } else {
            self.input_window_start = 0;
        }

        let max_start = self.cursor.total_inputs.saturating_sub(self.display.max_visible_inputs);
        if self.input_window_start > max_start {
            self.input_window_start = max_start;
        }
    }

    /// Move the cursor to the first visible row.
    pub fn cursor_to_top(&mut self)
        requires
            old(self).wf(),
        ensures
            final(self).cursor.input_index == jump_target(
                old(self).cursor.input_index as int,
                old(self).cursor.total_inputs as int,
                old(self).input_window_start as int,
            ),
            final(self).cursor.total_inputs == old(self).cursor.total_inputs,
            final(self).records == old(self).records,
            final(self).mode == old(self).mode,
            final(self).exit == old(self).exit,
            final(self).input_window_start == old(self).input_window_start,
            final(self).display == old(self).display,
            final(self).ports == old(self).ports,
            final(self).number_buffer == old(self).number_buffer,
            final(self).command_buffer == old(self).command_buffer,
            final(self).wf(),
    {
        let target = self.input_window_start;
        self.cursor.jump_to(target);
    }

    /// Move the cursor to the middle visible row.
    pub fn cursor_to_middle(&mut self)
        requires
            old(self).wf(),
        ensures
            final(self).cursor.input_index == jump_target(
                old(self).cursor.input_index as int,
                old(self).cursor.total_inputs as int,
                old(self).input_window_start as int
                    + old(self).display.max_visible_inputs as int / 2,
            ),
            final(self).cursor.total_inputs == old(self).cursor.total_inputs,
            final(self).records == old(self).records,
            final(self).mode == old(self).mode,
            final(self).exit == old(self).exit,
            final(self).input_window_start == old(self).input_window_start,
            final(self).display == old(self).display,
            final(self).ports == old(self).ports,
            final(self).number_buffer == old(self).number_buffer,
            final(self).command_buffer == old(self).command_buffer,
            final(self).wf(),
    {
        let target = self.input_window_start.saturating_add(
            self.display.max_visible_inputs / 2,
        );
        proof {
            let ws = old(self).input_window_start as int;
            let half = old(self).display.max_visible_inputs as int / 2;
            let total = old(self).cursor.total_inputs as int;
            if ws + half > usize::MAX {
                // Saturation and the true sum are both past the end, so the
                // jump clamps to the same place.
                assert(jump_target(old(self).cursor.input_index as int, total, target as int)
                    == jump_target(old(self).cursor.input_index as int, total, ws + half));
            }
        }
        self.cursor.jump_to(target);
    }

    /// Move the cursor to the last visible row; a no-op when there is
    /// nothing to navigate.
    pub fn cursor_to_bottom(&mut self)
        requires
            old(self).wf(),
        ensures
            final(self).cursor.input_index == (if old(self).cursor.total_inputs == 0 {
                old(self).cursor.input_index as int
            } else {
                bottom_row(
                    old(self).input_window_start as int,
                    old(self).cursor.total_inputs as int,
                    old(self).display.max_visible_inputs as int,
                )
            }),
            final(self).cursor.total_inputs == old(self).cursor.total_inputs,
            final(self).records == old(self).records,
            final(self).mode == old(self).mode,
            final(self).exit == old(self).exit,
            final(self).input_window_start == old(self).input_window_start,
            final(self).display == old(self).display,
            final(self).ports == old(self).ports,
            final(self).number_buffer == old(self).number_buffer,
            final(self).command_buffer == old(self).command_buffer,
            final(self).wf(),
    {
        if self.cursor.total_inputs == 0 {
            return;
        }
        let last_visible = self.input_window_start.saturating_add(
            self.display.max_visible_inputs,
        ) - 1;
        let bottom = if last_visible < self.cursor.total_inputs - 1 {
            last_visible
        } else {
            self.cursor.total_inputs - 1
        };
        proof {
            let ws = old(self).input_window_start as int;
            let h = old(self).display.max_visible_inputs as int;
            let total = old(self).cursor.total_inputs as int;
            if ws + h > usize::MAX {
                // The saturated row and the true row both lie past the end,
                // so both clamp to the last valid index.
                assert(ws + h - 1 >= usize::MAX);
                assert(total - 1 < ws + h - 1);
            }
            assert(bottom == bottom_row(ws, total, h));
        }
        self.cursor.jump_to(bottom);
    }

    /// Fold one decimal digit into the pending repeat count, saturating
    /// rather than wrapping on pathological sequences.
    pub fn handle_digit(&mut self, digit: u8)
        requires
            digit <= 9,
        ensures
            final(self).number_buffer == Some(fed_count(old(self).number_buffer, digit as int) as usize),
            final(self).records == old(self).records,
            final(self).mode == old(self).mode,
            final(self).exit == old(self).exit,
            final(self).cursor == old(self).cursor,
            final(self).input_window_start == old(self).input_window_start,
            final(self).display == old(self).display,
            final(self).ports == old(self).ports,
            final(self).command_buffer == old(self).command_buffer,
    {
        let base = match self.number_buffer {
            Some(n) => n,
            None => 0,
        };
        let value = match base.checked_mul(10) {
            Some(x) => match x.checked_add(digit as usize) {
                Some(y) => y,
                None => usize::MAX,
            },
            None => usize::MAX,
        };
        self.number_buffer = Some(value);
    }

    /// Take the pending repeat count: the accumulated value if digits were
    /// fed, else 1; the buffer is always cleared.
    pub fn take_number_buffer(&mut self) -> (count: usize)
        ensures
            count as int == pending_count(old(self).number_buffer),
            final(self).number_buffer is None,
            final(self).records == old(self).records,
            final(self).mode == old(self).mode,
            final(self).exit == old(self).exit,
            final(self).cursor == old(self).cursor,
            final(self).input_window_start == old(self).input_window_start,
            final(self).display == old(self).display,
            final(self).ports == old(self).ports,
            final(self).command_buffer == old(self).command_buffer,
    {
        let count = match self.number_buffer {
            Some(n) => n,
            None => 1,
        };
        self.number_buffer = None;
        count
    }

    /// Handle one key press, dispatched by the current mode.
    pub fn handle_key_event(&mut self, key: KeyPress)
        requires
            old(self).wf(),
        ensures
            final(self).wf(),
            step(*old(self), key, *final(self)),
    {
        match self.mode {
            AppMode::Normal => self.handle_normal_key_event(key),
            AppMode::Input => self.handle_input_key_event(key),
            AppMode::Help => self.handle_help_key_event(key),
            AppMode::Command => self.handle_command_key_event(key),
        }
    }

    fn handle_normal_key_event(&mut self, key: KeyPress)
        requires
            old(self).wf(),
        ensures
            final(self).wf(),
            normal_step(*old(self), key, *final(self)),
    {
        // Digits feed the repeat count and are never motions themselves.
        if let Some(d) = digit_of(key.code) {
            self.handle_digit(d);
            return;
        }

        match key.code {
            Key::Char('q') => {
                self.exit();
            }
            // Basic line motion.
            Key::Char('j') | Key::Down => {
                let count = self.take_number_buffer();
                self.cursor.advance(count);
                self.update_input_window();
            }
            Key::Char('k') | Key::Up => {
                let count = self.take_number_buffer();
                self.cursor.retreat(count);
                self.update_input_window();
            }
            // Half-page motion.
            Key::Char('d') => {
                if key.ctrl {
                    let count = self.take_number_buffer();
                    let steps = self.half_page_steps(count);
                    self.cursor.advance(steps);
                    self.update_input_window();
                }
            }
            Key::Char('u') => {
                if key.ctrl {
                    let count = self.take_number_buffer();
                    let steps = self.half_page_steps(count);
                    self.cursor.retreat(steps);
                    self.update_input_window();
                }
            }
            // Full-page motion.
            Key::Char('f') => {
                if key.ctrl {
                    let count = self.take_number_buffer();
                    let steps = self.full_page_steps(count);
                    self.cursor.advance(steps);
                    self.update_input_window();
                }
            }
            Key::Char('b') => {
                if key.ctrl {
                    let count = self.take_number_buffer();
                    let steps = self.full_page_steps(count);
                    self.cursor.retreat(steps);
                    self.update_input_window();
                }
            }
            Key::PageDown => {
                let count = self.take_number_buffer();
                let steps = self.full_page_steps(count);
                self.cursor.advance(steps);
                self.update_input_window();
            }
            Key::PageUp => {
                let count = self.take_number_buffer();
                let steps = self.full_page_steps(count);
                self.cursor.retreat(steps);
                self.update_input_window();
            }
            // Go to a specific, the first, or the last line. The two code
            // paths stay distinct: with no pending count `G` must reach the
            // last line, not a fixed one.
            Key::Char('g') => {
                if self.number_buffer.is_some() {
                    let line = self.take_number_buffer();
                    self.cursor.jump_to(line.saturating_sub(1));
                } else {
                    self.cursor.jump_to(0);
                }
                self.update_input_window();
            }
            Key::Char('G') => {
                if self.number_buffer.is_some() {
                    let line = self.take_number_buffer();
                    self.cursor.jump_to(line.saturating_sub(1));
                } else {
                    let last = self.cursor.total_inputs.saturating_sub(1);
                    self.cursor.jump_to(last);
                }
                self.update_input_window();
            }
            // Reposition the cursor inside the window without scrolling.
            Key::Char('H') => {
                self.cursor_to_top();
            }
            Key::Char('M') => {
                self.cursor_to_middle();
            }
            Key::Char('L') => {
                self.cursor_to_bottom();
            }
            // Recenter the window on the cursor.
            Key::Char('z') => {
                self.center_cursor();
            }
            // Enter command mode.
            Key::Char(':') => {
                self.command_buffer.clear();
                self.mode = AppMode::Command;
            }
            // Help and debug toggles.
            Key::Char('?') => {
                self.mode = AppMode::Help;
            }
            Key::Char('D') => {
                self.display.show_debug = !self.display.show_debug;
            }
            // Cancel the pending count.
            Key::Esc => {
                self.number_buffer = None;
            }
            _ => {}
        }
    }

    /// Half a window of rows, repeated `count` times; saturation only kicks
    /// in past any position a session can hold, so the landing place is the
    /// same as with the exact product.
    fn half_page_steps(&self, count: usize) -> (steps: usize)
        ensures
            forall|pos: int, total: int|
                #![trigger move_target(pos, total, steps as int)]
                #![trigger move_target(pos, total, -(steps as int))]
                move_target(pos, total, steps as int) == move_target(
                    pos,
                    total,
                    (self.display.max_visible_inputs as int / 2) * count as int,
                ) && move_target(pos, total, -(steps as int)) == move_target(
                    pos,
                    total,
                    -((self.display.max_visible_inputs as int / 2) * count as int),
                ) || !(0 <= pos <= total <= usize::MAX),
    {
        let half = self.display.max_visible_inputs / 2;
        let steps = match half.checked_mul(count) {
            Some(s) => s,
            None => usize::MAX,
        };
        proof {
            lemma_saturated_steps(half as int, count as int, steps as int);
        }
        steps
    }

    /// A full window of rows, repeated `count` times; saturating as
    /// `half_page_steps` does.
    fn full_page_steps(&self, count: usize) -> (steps: usize)
        ensures
            forall|pos: int, total: int|
                #![trigger move_target(pos, total, steps as int)]
                #![trigger move_target(pos, total, -(steps as int))]
                move_target(pos, total, steps as int) == move_target(
                    pos,
                    total,
                    self.display.max_visible_inputs as int * count as int,
                ) && move_target(pos, total, -(steps as int)) == move_target(
                    pos,
                    total,
                    -(self.display.max_visible_inputs as int * count as int),
                ) || !(0 <= pos <= total <= usize::MAX),
    {
        let page = self.display.max_visible_inputs;
        let steps = match page.checked_mul(count) {
            Some(s) => s,
            None => usize::MAX,
        };
        proof {
            lemma_saturated_steps(page as int, count as int, steps as int);
        }
        steps
    }

    fn handle_input_key_event(&mut self, key: KeyPress)
        requires
            old(self).wf(),
        ensures
            final(self).wf(),
            input_step(*old(self), key, *final(self)),
    {
        match key.code {
            Key::Esc => {
                self.mode = AppMode::Normal;
            }
            _ => {}
        }
    }

    fn handle_help_key_event(&mut self, key: KeyPress)
        requires
            old(self).wf(),
        ensures
            final(self).wf(),
            help_step(*old(self), key, *final(self)),
    {
        match key.code {
            Key::Esc | Key::Char('q') | Key::Char('?') => {
                self.mode = AppMode::Normal;
            }
            _ => {}
        }
    }

    fn handle_command_key_event(&mut self, key: KeyPress)
        requires
            old(self).wf(),
        ensures
            final(self).wf(),
            command_step(*old(self), key, *final(self)),
    {
        match key.code {
            Key::Enter => {
                self.execute_command();
                self.mode = AppMode::Normal;
            }
            Key::Esc => {
                self.command_buffer.clear();
                self.mode = AppMode::Normal;
            }
            Key::Backspace => {
                let _ = self.command_buffer.pop();
            }
            Key::Char(c) => {
                self.command_buffer.push(c);
            }
            _ => {}
        }
    }

    /// Execute the command buffer: quit, jump to a line, or nothing; the
    /// buffer is cleared regardless.
    fn execute_command(&mut self)
        requires
            old(self).wf(),
        ensures
            final(self).wf(),
            same_session(*old(self), *final(self)),
            final(self).number_buffer == old(self).number_buffer,
            final(self).display == old(self).display,
            final(self).mode == old(self).mode,
            final(self).command_buffer@ == Seq::<char>::empty(),
            match spec_parse_command(old(self).command_buffer@) {
                Command::Quit => final(self).exit && same_position(*old(self), *final(self)),
                Command::Jump { target } => final(self).exit == old(self).exit
                    && final(self).cursor.input_index == jump_target(
                    old(self).cursor.input_index as int,
                    old(self).cursor.total_inputs as int,
                    target as int,
                ) && final(self).input_window_start == reconcile_start(
                    old(self).input_window_start as int,
                    jump_target(
                        old(self).cursor.input_index as int,
                        old(self).cursor.total_inputs as int,
                        target as int,
                    ),
                    old(self).cursor.total_inputs as int,
                    old(self).display.max_visible_inputs as int,
                ),
                Command::Nothing => final(self).exit == old(self).exit && same_position(
                    *old(self),
                    *final(self),
                ),
            },
    {
        let cmd = parse_command(&self.command_buffer);
        match cmd {
            Command::Quit => {
                self.exit();
            }
            Command::Jump { target } => {
                self.cursor.jump_to(target);
                self.update_input_window();
            }
            Command::Nothing => {}
        }
        self.command_buffer.clear();
    }

    /// Ask the host event loop to end the session.
    fn exit(&mut self)
        ensures
            final(self).exit,
            final(self).records == old(self).records,
            final(self).mode == old(self).mode,
            final(self).cursor == old(self).cursor,
            final(self).input_window_start == old(self).input_window_start,
            final(self).display == old(self).display,
            final(self).ports == old(self).ports,
            final(self).number_buffer == old(self).number_buffer,
            final(self).command_buffer == old(self).command_buffer,
    {
        self.exit = true;
    }
}

/// When a page product saturates, the saturated and the exact step count
/// land every in-range cursor on the same clamped position.
proof fn lemma_saturated_steps(a: int, b: int, steps: int)
    requires
        a >= 0,
        b >= 0,
        steps == (if a * b > usize::MAX {
            usize::MAX as int
        } else {
            a * b
        }),
    ensures
        forall|pos: int, total: int|
            #![trigger move_target(pos, total, steps)]
            #![trigger move_target(pos, total, -steps)]
            move_target(pos, total, steps) == move_target(pos, total, a * b)
                && move_target(pos, total, -steps) == move_target(pos, total, -(a * b)) || !(0
                <= pos <= total <= usize::MAX),
{
    assert forall|pos: int, total: int|
        #![trigger move_target(pos, total, steps)]
        #![trigger move_target(pos, total, -steps)]
        0 <= pos <= total <= usize::MAX implies
        move_target(pos, total, steps) == move_target(pos, total, a * b) && move_target(
        pos,
        total,
        -steps,
    ) == move_target(pos, total, -(a * b)) by {
        if a * b > usize::MAX {
            assert(steps == usize::MAX);
            if total > 0 {
                assert(pos + steps >= total);
                assert(pos + a * b >= total);
                if pos - steps >= 0 {
                    assert(pos == usize::MAX && total == usize::MAX);
                }
            }
        }
    }
}

/// The last row of the visible window, clamped to the last valid index.
pub open spec fn bottom_row(ws: int, total: int, h: int) -> int {
    if ws + h - 1 < total - 1 {
        ws + h - 1
    } else {
        total - 1
    }
}

/// The repeat count a motion consumes: the accumulated value, or 1 when no
/// digits were fed.
pub open spec fn pending_count(nb: Option<usize>) -> int {
    match nb {
        Some(n) => n as int,
        None => 1,
    }
}

/// The pending count after one more decimal digit, saturating at what a
/// `usize` can hold.
pub open spec fn fed_count(nb: Option<usize>, digit: int) -> int {
    let base = match nb {
        Some(n) => n as int,
        None => 0,
    };
    if base * 10 + digit > usize::MAX {
        usize::MAX as int
    } else {
        base * 10 + digit
    }
}

/// Fields no key press ever changes: the records, the ports, and the total.
pub open spec fn same_session(pre: App, post: App) -> bool {
    &&& post.records@ == pre.records@
    &&& post.ports@ == pre.ports@
    &&& post.cursor.total_inputs == pre.cursor.total_inputs
}

/// Mode, exit flag, display settings and command buffer unchanged.
pub open spec fn same_surface(pre: App, post: App) -> bool {
    &&& post.mode == pre.mode
    &&& post.exit == pre.exit
    &&& post.display == pre.display
    &&& post.command_buffer@ == pre.command_buffer@
}

/// Cursor position and window start unchanged.
pub open spec fn same_position(pre: App, post: App) -> bool {
    &&& post.cursor.input_index == pre.cursor.input_index
    &&& post.input_window_start == pre.input_window_start
}

/// Nothing observable changed.
pub open spec fn unchanged(pre: App, post: App) -> bool {
    &&& same_session(pre, post)
    &&& same_surface(pre, post)
    &&& same_position(pre, post)
    &&& post.number_buffer == pre.number_buffer
}

/// A motion by `delta`: the repeat count is consumed, the cursor moves
/// clamped to the valid range, and the window is reconciled.
pub open spec fn moved_by(pre: App, post: App, delta: int) -> bool {
    let total = pre.cursor.total_inputs as int;
    let h = pre.display.max_visible_inputs as int;
    let landed = move_target(pre.cursor.input_index as int, total, delta);
    &&& same_session(pre, post)
    &&& same_surface(pre, post)
    &&& post.number_buffer is None
    &&& post.cursor.input_index == landed
    &&& post.input_window_start == reconcile_start(
        pre.input_window_start as int,
        landed,
        total,
        h,
    )
}

/// A jump to `index`: the repeat count is consumed, the cursor lands on
/// `index` clamped to the valid range, and the window is reconciled.
pub open spec fn jumped_to(pre: App, post: App, index: int) -> bool {
    let total = pre.cursor.total_inputs as int;
    let h = pre.display.max_visible_inputs as int;
    let landed = jump_target(pre.cursor.input_index as int, total, index);
    &&& same_session(pre, post)
    &&& same_surface(pre, post)
    &&& post.number_buffer is None
    &&& post.cursor.input_index == landed
    &&& post.input_window_start == reconcile_start(
        pre.input_window_start as int,
        landed,
        total,
        h,
    )
}

/// The browsing-mode transition table: what one key press does to the
/// session state, key by key.
pub open spec fn normal_step(pre: App, key: KeyPress, post: App) -> bool {
    let total = pre.cursor.total_inputs as int;
    let h = pre.display.max_visible_inputs as int;
    let ws = pre.input_window_start as int;
    let pos = pre.cursor.input_index as int;
    let count = pending_count(pre.number_buffer);
    match spec_digit_of(key.code) {
        Some(d) => {
            // Digits only feed the repeat count; they are never motions.
            &&& same_session(pre, post)
            &&& same_surface(pre, post)
            &&& same_position(pre, post)
            &&& post.number_buffer == Some(fed_count(pre.number_buffer, d as int) as usize)
        }
        None => {
            if key.code == Key::Char('q') {
                // Quit: set the exit flag.
                &&& same_session(pre, post)
                &&& same_position(pre, post)
                &&& post.number_buffer == pre.number_buffer
                &&& post.mode == pre.mode
                &&& post.display == pre.display
                &&& post.command_buffer@ == pre.command_buffer@
                &&& post.exit
            } else if key.code == Key::Char('j') || key.code == Key::Down {
                moved_by(pre, post, count)
            } else if key.code == Key::Char('k') || key.code == Key::Up {
                moved_by(pre, post, -count)
            } else if key.code == Key::Char('d') && key.ctrl {
                moved_by(pre, post, (h / 2) * count)
            } else if key.code == Key::Char('u') && key.ctrl {
                moved_by(pre, post, -((h / 2) * count))
            } else if (key.code == Key::Char('f') && key.ctrl) || key.code == Key::PageDown {
                moved_by(pre, post, h * count)
            } else if (key.code == Key::Char('b') && key.ctrl) || key.code == Key::PageUp {
                moved_by(pre, post, -(h * count))
            } else if key.code == Key::Char('g') {
                // With a pending count, go to that 1-indexed line; else to
                // the first line.
                jumped_to(
                    pre,
                    post,
                    if pre.number_buffer is Some {
                        if count > 0 {
                            count - 1
                        } else {
                            0
                        }
                    } else {
                        0
                    },
                )
            } else if key.code == Key::Char('G') {
                // With a pending count, go to that 1-indexed line; else to
                // the last line.
                jumped_to(
                    pre,
                    post,
                    if pre.number_buffer is Some {
                        if count > 0 {
                            count - 1
                        } else {
                            0
                        }
                    } else {
                        if total > 0 {
                            total - 1
                        } else {
                            0
                        }
                    },
                )
            } else if key.code == Key::Char('H') {
                // Reposition inside the window: no scroll, count kept.
                &&& same_session(pre, post)
                &&& same_surface(pre, post)
                &&& post.number_buffer == pre.number_buffer
                &&& post.input_window_start == pre.input_window_start
                &&& post.cursor.input_index == jump_target(pos, total, ws)
            } else if key.code == Key::Char('M') {
                &&& same_session(pre, post)
                &&& same_surface(pre, post)
                &&& post.number_buffer == pre.number_buffer
                &&& post.input_window_start == pre.input_window_start
                &&& post.cursor.input_index == jump_target(pos, total, ws + h / 2)
            } else if key.code == Key::Char('L') {
                &&& same_session(pre, post)
                &&& same_surface(pre, post)
                &&& post.number_buffer == pre.number_buffer
                &&& post.input_window_start == pre.input_window_start
                &&& post.cursor.input_index == (if total == 0 {
                    pos
                } else {
                    bottom_row(ws, total, h)
                })
            } else if key.code == Key::Char('z') {
                // Recenter the window on the cursor.
                &&& same_session(pre, post)
                &&& same_surface(pre, post)
                &&& post.number_buffer == pre.number_buffer
                &&& post.cursor.input_index == pre.cursor.input_index
                &&& post.input_window_start == center_start(pos, total, h)
            } else if key.code == Key::Char(':') {
                // Enter command mode with a cleared buffer.
                &&& same_session(pre, post)
                &&& same_position(pre, post)
                &&& post.number_buffer == pre.number_buffer
                &&& post.exit == pre.exit
                &&& post.display == pre.display
                &&& post.mode == AppMode::Command
                &&& post.command_buffer@ == Seq::<char>::empty()
            } else if key.code == Key::Char('?') {
                &&& same_session(pre, post)
                &&& same_position(pre, post)
                &&& post.number_buffer == pre.number_buffer
                &&& post.exit == pre.exit
                &&& post.display == pre.display
                &&& post.command_buffer@ == pre.command_buffer@
                &&& post.mode == AppMode::Help
            } else if key.code == Key::Char('D') {
                // Toggle the debug view.
                &&& same_session(pre, post)
                &&& same_position(pre, post)
                &&& post.number_buffer == pre.number_buffer
                &&& post.exit == pre.exit
                &&& post.mode == pre.mode
                &&& post.command_buffer@ == pre.command_buffer@
                &&& post.display.show_debug == !pre.display.show_debug
                &&& post.display.max_visible_inputs == pre.display.max_visible_inputs
            } else if key.code == Key::Esc {
                // Cancel the pending count.
                &&& same_session(pre, post)
                &&& same_surface(pre, post)
                &&& same_position(pre, post)
                &&& post.number_buffer is None
            } else {
                unchanged(pre, post)
            }
        }
    }
}

/// The text-input-mode transition table: reserved; only cancel leaves.
pub open spec fn input_step(pre: App, key: KeyPress, post: App) -> bool {
    if key.code == Key::Esc {
        &&& same_session(pre, post)
        &&& same_position(pre, post)
        &&& post.number_buffer == pre.number_buffer
        &&& post.exit == pre.exit
        &&& post.display == pre.display
        &&& post.command_buffer@ == pre.command_buffer@
        &&& post.mode == AppMode::Normal
    } else {
        unchanged(pre, post)
    }
}

/// The help-mode transition table: cancel, quit-help or the help key itself
/// returns to browsing; everything else is ignored.
pub open spec fn help_step(pre: App, key: KeyPress, post: App) -> bool {
    if key.code == Key::Esc || key.code == Key::Char('q') || key.code == Key::Char('?') {
        &&& same_session(pre, post)
        &&& same_position(pre, post)
        &&& post.number_buffer == pre.number_buffer
        &&& post.exit == pre.exit
        &&& post.display == pre.display
        &&& post.command_buffer@ == pre.command_buffer@
        &&& post.mode == AppMode::Normal
    } else {
        unchanged(pre, post)
    }
}

/// The command-mode transition table: printable characters grow the buffer,
/// backspace shrinks it, Enter executes it and returns to browsing, cancel
/// discards it.
pub open spec fn command_step(pre: App, key: KeyPress, post: App) -> bool {
    let total = pre.cursor.total_inputs as int;
    let h = pre.display.max_visible_inputs as int;
    let ws = pre.input_window_start as int;
    let pos = pre.cursor.input_index as int;
    match key.code {
        Key::Enter => {
            &&& same_session(pre, post)
            &&& post.number_buffer == pre.number_buffer
            &&& post.display == pre.display
            &&& post.mode == AppMode::Normal
            &&& post.command_buffer@ == Seq::<char>::empty()
            &&& match spec_parse_command(pre.command_buffer@) {
                Command::Quit => {
                    &&& post.exit
                    &&& same_position(pre, post)
                }
                Command::Jump { target } => {
                    &&& post.exit == pre.exit
                    &&& post.cursor.input_index == jump_target(pos, total, target as int)
                    &&& post.input_window_start == reconcile_start(
                        ws,
                        jump_target(pos, total, target as int),
                        total,
                        h,
                    )
                }
                Command::Nothing => {
                    &&& post.exit == pre.exit
                    &&& same_position(pre, post)
                }
            }
        }
        Key::Esc => {
            &&& same_session(pre, post)
            &&& same_position(pre, post)
            &&& post.number_buffer == pre.number_buffer
            &&& post.exit == pre.exit
            &&& post.display == pre.display
            &&& post.mode == AppMode::Normal
            &&& post.command_buffer@ == Seq::<char>::empty()
        }
        Key::Backspace => {
            &&& same_session(pre, post)
            &&& same_position(pre, post)
            &&& post.number_buffer == pre.number_buffer
            &&& post.exit == pre.exit
            &&& post.display == pre.display
            &&& post.mode == pre.mode
            &&& post.command_buffer@ == (if pre.command_buffer@.len() > 0 {
                pre.command_buffer@.drop_last()
            } else {
                pre.command_buffer@
            })
        }
        Key::Char(c) => {
            &&& same_session(pre, post)
            &&& same_position(pre, post)
            &&& post.number_buffer == pre.number_buffer
            &&& post.exit == pre.exit
            &&& post.display == pre.display
            &&& post.mode == pre.mode
            &&& post.command_buffer@ == pre.command_buffer@.push(c)
        }
        _ => unchanged(pre, post),
    }
}

/// The whole transition table: one key press, dispatched by the current
/// mode.
pub open spec fn step(pre: App, key: KeyPress, post: App) -> bool {
    match pre.mode {
        AppMode::Normal => normal_step(pre, key, post),
        AppMode::Input => input_step(pre, key, post),
        AppMode::Help => help_step(pre, key, post),
        AppMode::Command => command_step(pre, key, post),
    }
}

/// The viewport keeps the cursor visible: after reconciling, the cursor lies
/// inside the window and the window never hangs past either end.
pub proof fn lemma_reconcile_window(ws: int, pos: int, total: int, h: int)
    requires
        0 <= ws,
        0 <= pos < total,
        h >= 1,
    ensures
        reconcile_start(ws, pos, total, h) <= pos < reconcile_start(ws, pos, total, h) + h,
        0 <= reconcile_start(ws, pos, total, h),
        reconcile_start(ws, pos, total, h) <= (if total >= h { total - h } else { 0 }),
{
}

} // verus!

