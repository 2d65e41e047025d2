use vstd::prelude::*;
use crate::command::{
    is_terminal, shown_on_user_screen, user_screen, Command, CommandHandler, COMMAND_BUFFER_SIZE,
    USER_SCREEN,
};
use crate::manager::ScreenManager;
use crate::printk::{level_tag, logged, LogLevel, Logger};
use vstd::string::StringSliceAdditionalSpecFns;
use vstd::utf8::encode_utf8;
use crate::screen::{glyph, put_cell, ScreenState, BUFFER_HEIGHT, BUFFER_WIDTH};

verus! {

/// The byte that announces an extended key.
pub const EXTENDED_KEY_PREFIX: u8 = 0xe0;

/// The byte a keyboard sends on an internal error; it is ignored.
pub const KEYBOARD_ERROR: u8 = 0xff;

pub const LEFT_CTRL: u8 = 0x1d;
pub const LEFT_SHIFT: u8 = 0x2a;
pub const RIGHT_SHIFT: u8 = 0x36;
pub const LEFT_ALT: u8 = 0x38;

/// A decoded key press.
#[derive(Clone, Copy, Debug, PartialEq, Eq, Structural)]
pub enum KeyEvents {
    Character(u8),
    ArrowUp,
    ArrowDown,
    ArrowLeft,
    ArrowRight,
    BackSpace,
    Delete,
    Enter,
    Home,
    End,
    SwitchScreenLeft,
    SwitchScreenRight,
}

/// The ASCII byte of a key code in the US QWERTY scancode set 1; 0 for a
/// key without one.
pub open spec fn ascii_for(code: u8) -> u8 {
    match code {
        0x01 => 0x1b,
        0x02 => 0x31 /* 1 */,
        0x03 => 0x32 /* 2 */,
        0x04 => 0x33 /* 3 */,
        0x05 => 0x34 /* 4 */,
        0x06 => 0x35 /* 5 */,
        0x07 => 0x36 /* 6 */,
        0x08 => 0x37 /* 7 */,
        0x09 => 0x38 /* 8 */,
        0x0a => 0x39 /* 9 */,
        0x0b => 0x30 /* 0 */,
        0x0c => 0x2d /* - */,
        0x0d => 0x3d /* = */,
        0x0e => 0x08,
        0x0f => 0x09,
        0x10 => 0x71 /* q */,
        0x11 => 0x77 /* w */,
        0x12 => 0x65 /* e */,
        0x13 => 0x72 /* r */,
        0x14 => 0x74 /* t */,
        0x15 => 0x79 /* y */,
        0x16 => 0x75 /* u */,
        0x17 => 0x69 /* i */,
        0x18 => 0x6f /* o */,
        0x19 => 0x70 /* p */,
        0x1a => 0x5b /* [ */,
        0x1b => 0x5d /* ] */,
        0x1c => 0x0a,
        0x1e => 0x61 /* a */,
        0x1f => 0x73 /* s */,
        0x20 => 0x64 /* d */,
        0x21 => 0x66 /* f */,
        0x22 => 0x67 /* g */,
        0x23 => 0x68 /* h */,
        0x24 => 0x6a /* j */,
        0x25 => 0x6b /* k */,
        0x26 => 0x6c /* l */,
        0x27 => 0x3b /* ; */,
        0x28 => 0x27,
        0x29 => 0x60 /* ` */,
        0x2b => 0x5c,
        0x2c => 0x7a /* z */,
        0x2d => 0x78 /* x */,
        0x2e => 0x63 /* c */,
        0x2f => 0x76 /* v */,
        0x30 => 0x62 /* b */,
        0x31 => 0x6e /* n */,
        0x32 => 0x6d /* m */,
        0x33 => 0x2c /* , */,
        0x34 => 0x2e /* . */,
        0x35 => 0x2f /* / */,
        0x37 => 0x2a /* * */,
        0x39 => 0x20,
        0x47 => 0x37 /* 7 */,
        0x48 => 0x38 /* 8 */,
        0x49 => 0x39 /* 9 */,
        0x4a => 0x2d /* - */,
        0x4b => 0x34 /* 4 */,
        0x4c => 0x35 /* 5 */,
        0x4d => 0x36 /* 6 */,
        0x4e => 0x2b /* + */,
        0x4f => 0x31 /* 1 */,
        0x50 => 0x32 /* 2 */,
        0x51 => 0x33 /* 3 */,
        0x52 => 0x30 /* 0 */,
        0x53 => 0x2e /* . */,
        _ => 0,
    }
}

/// The byte typed with shift held: a lower-case letter becomes upper case
/// and a symbol key gives its US-layout shifted symbol; other bytes stay.
pub open spec fn shifted(c: u8) -> u8 {
    if 0x61 <= c <= 0x7a {
        (c - 32) as u8
    } else {
        match c {
            0x31 => 0x21,
            0x32 => 0x40,
            0x33 => 0x23,
            0x34 => 0x24,
            0x35 => 0x25,
            0x36 => 0x5e,
            0x37 => 0x26,
            0x38 => 0x2a,
            0x39 => 0x28,
            0x30 => 0x29,
            0x2d => 0x5f,
            0x3d => 0x2b,
            0x5b => 0x7b,
            0x5d => 0x7d,
            0x5c => 0x7c,
            0x3b => 0x3a,
            0x27 => 0x22,
            0x2c => 0x3c,
            0x2e => 0x3e,
            0x2f => 0x3f,
            0x60 => 0x7e,
            _ => c,
        }
    }
}

/// Looks up `ascii_for`.
pub fn scancode_to_ascii(code: u8) -> (r: u8)
    ensures
        r == ascii_for(code),
{
    match code {
        0x01 => 0x1b,
        0x02 => 0x31 /* 1 */,
        0x03 => 0x32 /* 2 */,
        0x04 => 0x33 /* 3 */,
        0x05 => 0x34 /* 4 */,
        0x06 => 0x35 /* 5 */,
        0x07 => 0x36 /* 6 */,
        0x08 => 0x37 /* 7 */,
        0x09 => 0x38 /* 8 */,
        0x0a => 0x39 /* 9 */,
        0x0b => 0x30 /* 0 */,
        0x0c => 0x2d /* - */,
        0x0d => 0x3d /* = */,
        0x0e => 0x08,
        0x0f => 0x09,
        0x10 => 0x71 /* q */,
        0x11 => 0x77 /* w */,
        0x12 => 0x65 /* e */,
        0x13 => 0x72 /* r */,
        0x14 => 0x74 /* t */,
        0x15 => 0x79 /* y */,
        0x16 => 0x75 /* u */,
        0x17 => 0x69 /* i */,
        0x18 => 0x6f /* o */,
        0x19 => 0x70 /* p */,
        0x1a => 0x5b /* [ */,
        0x1b => 0x5d /* ] */,
        0x1c => 0x0a,
        0x1e => 0x61 /* a */,
        0x1f => 0x73 /* s */,
        0x20 => 0x64 /* d */,
        0x21 => 0x66 /* f */,
        0x22 => 0x67 /* g */,
        0x23 => 0x68 /* h */,
        0x24 => 0x6a /* j */,
        0x25 => 0x6b /* k */,
        0x26 => 0x6c /* l */,
        0x27 => 0x3b /* ; */,
        0x28 => 0x27,
        0x29 => 0x60 /* ` */,
        0x2b => 0x5c,
        0x2c => 0x7a /* z */,
        0x2d => 0x78 /* x */,
        0x2e => 0x63 /* c */,
        0x2f => 0x76 /* v */,
        0x30 => 0x62 /* b */,
        0x31 => 0x6e /* n */,
        0x32 => 0x6d /* m */,
        0x33 => 0x2c /* , */,
        0x34 => 0x2e /* . */,
        0x35 => 0x2f /* / */,
        0x37 => 0x2a /* * */,
        0x39 => 0x20,
        0x47 => 0x37 /* 7 */,
        0x48 => 0x38 /* 8 */,
        0x49 => 0x39 /* 9 */,
        0x4a => 0x2d /* - */,
        0x4b => 0x34 /* 4 */,
        0x4c => 0x35 /* 5 */,
        0x4d => 0x36 /* 6 */,
        0x4e => 0x2b /* + */,
        0x4f => 0x31 /* 1 */,
        0x50 => 0x32 /* 2 */,
        0x51 => 0x33 /* 3 */,
        0x52 => 0x30 /* 0 */,
        0x53 => 0x2e /* . */,
        _ => 0,
    }
}

/// Computes `shifted`.
pub fn shift_symbol(c: u8) -> (r: u8)
    ensures
        r == shifted(c),
{
    if 0x61 <= c && c <= 0x7a {
        c - 32
    } else {
        match c {
            0x31 => 0x21,
            0x32 => 0x40,
            0x33 => 0x23,
            0x34 => 0x24,
            0x35 => 0x25,
            0x36 => 0x5e,
            0x37 => 0x26,
            0x38 => 0x2a,
            0x39 => 0x28,
            0x30 => 0x29,
            0x2d => 0x5f,
            0x3d => 0x2b,
            0x5b => 0x7b,
            0x5d => 0x7d,
            0x5c => 0x7c,
            0x3b => 0x3a,
            0x27 => 0x22,
            0x2c => 0x3c,
            0x2e => 0x3e,
            0x2f => 0x3f,
            0x60 => 0x7e,
            _ => c,
        }
    }
}

pub open spec fn is_modifier(code: u8) -> bool {
    code == LEFT_CTRL || code == LEFT_SHIFT || code == RIGHT_SHIFT || code == LEFT_ALT
}

/// Decoder state kept between scancode bytes: the sticky modifier flags
/// and whether the previous byte was the extended-key prefix.
#[derive(Clone, Copy, Debug, PartialEq, Eq, Structural)]
pub struct KeyDecoder {
    pub shift_pressed: bool,
    pub ctrl_pressed: bool,
    pub alt_pressed: bool,
    pub wait_for_extended: bool,
}

/// The event of a pressed, non-modifier key code.
pub open spec fn key_event(d: KeyDecoder, code: u8, is_extended: bool) -> Option<KeyEvents> {
    if is_extended {
        match code {
            0x48 => Some(KeyEvents::ArrowUp),
            0x50 => Some(KeyEvents::ArrowDown),
            0x4b => Some(
                if d.ctrl_pressed {
                    KeyEvents::SwitchScreenLeft
                } else {
                    KeyEvents::ArrowLeft
                },
            ),
            0x4d => Some(
                if d.ctrl_pressed {
                    KeyEvents::SwitchScreenRight
                } else {
                    KeyEvents::ArrowRight
                },
            ),
            0x47 => Some(KeyEvents::Home),
            0x4f => Some(KeyEvents::End),
            0x53 => Some(KeyEvents::Delete),
            _ => None,
        }
    } else {
        let a = ascii_for(code);
        if a == 0 {
            None
        } else if a == 0x08 {
            Some(KeyEvents::BackSpace)
        } else if a == 0x0a {
            Some(KeyEvents::Enter)
        } else if d.shift_pressed {
            Some(KeyEvents::Character(shifted(a)))
        } else {
            Some(KeyEvents::Character(a))
        }
    }
}

/// The decoder state after one scancode byte.
pub open spec fn next_decoder(d: KeyDecoder, scancode: u8) -> KeyDecoder {
    if scancode == KEYBOARD_ERROR {
        d
    } else if scancode == EXTENDED_KEY_PREFIX {
        KeyDecoder { wait_for_extended: true, ..d }
    } else {
        let pressed = scancode & 0x80 == 0;
        let code = scancode & 0x7f;
        let d1 = KeyDecoder { wait_for_extended: false, ..d };
        if code == LEFT_CTRL {
            KeyDecoder { ctrl_pressed: pressed, ..d1 }
        } else if code == LEFT_SHIFT || code == RIGHT_SHIFT {
            KeyDecoder { shift_pressed: pressed, ..d1 }
        } else if code == LEFT_ALT {
            KeyDecoder { alt_pressed: pressed, ..d1 }
        } else {
            d1
        }
    }
}

/// The event that one scancode byte yields: none for the error byte, the
/// prefix, a release or a modifier key.
pub open spec fn decoded_event(d: KeyDecoder, scancode: u8) -> Option<KeyEvents> {
    if scancode == KEYBOARD_ERROR || scancode == EXTENDED_KEY_PREFIX {
        None
    } else {
        let released = scancode & 0x80 != 0;
        let code = scancode & 0x7f;
        if released || is_modifier(code) {
            None
        } else {
            key_event(d, code, d.wait_for_extended)
        }
    }
}

impl KeyDecoder {
    /// No modifier held, no prefix pending.
    pub fn new() -> (d: KeyDecoder)
        ensures
            d == (KeyDecoder {
                shift_pressed: false,
                ctrl_pressed: false,
                alt_pressed: false,
                wait_for_extended: false,
            }),
    {
        KeyDecoder {
            shift_pressed: false,
            ctrl_pressed: false,
            alt_pressed: false,
            wait_for_extended: false,
        }
    }

    /// Forgets every modifier and any pending prefix.
    pub fn reset(&mut self)
        ensures
            *final(self) == (KeyDecoder {
                shift_pressed: false,
                ctrl_pressed: false,
                alt_pressed: false,
                wait_for_extended: false,
            }),
    {
        self.wait_for_extended = false;
        self.shift_pressed = false;
        self.ctrl_pressed = false;
        self.alt_pressed = false;
    }

    /// Maps a pressed, non-modifier key code to its event.
    pub fn handle_scancode(&self, key_code: u8, is_extended: bool) -> (r: Option<KeyEvents>)
        ensures
            r == key_event(*self, key_code, is_extended),
    {
        if is_extended {
            return match key_code {
                0x48 => Some(KeyEvents::ArrowUp),
                0x50 => Some(KeyEvents::ArrowDown),
                0x4b => {
                    if self.ctrl_pressed {
                        Some(KeyEvents::SwitchScreenLeft)
                    } else {
                        Some(KeyEvents::ArrowLeft)
                    }
                },
                0x4d => {
                    if self.ctrl_pressed {
                        Some(KeyEvents::SwitchScreenRight)
                    } else {
                        Some(KeyEvents::ArrowRight)
                    }
                },
                0x47 => Some(KeyEvents::Home),
                0x4f => Some(KeyEvents::End),
                0x53 => Some(KeyEvents::Delete),
                _ => None,
            };
        }
        let ascii = scancode_to_ascii(key_code);
        if ascii == 0 {
            None
        } else if ascii == 0x08 {
            Some(KeyEvents::BackSpace)
        } else if ascii == 0x0a {
            Some(KeyEvents::Enter)
        } else if self.shift_pressed {
            Some(KeyEvents::Character(shift_symbol(ascii)))
        } else {
            Some(KeyEvents::Character(ascii))
        }
    }

    /// Feeds one scancode byte: updates the modifier and prefix state and
    /// returns the key event that the byte completes, if any.
    pub fn decode(&mut self, scancode: u8) -> (r: Option<KeyEvents>)
        ensures
            *final(self) == next_decoder(*old(self), scancode),
            r == decoded_event(*old(self), scancode),
    {
        if scancode == KEYBOARD_ERROR {
            return None;
        }
        if scancode == EXTENDED_KEY_PREFIX {
            self.wait_for_extended = true;
            return None;
        }
        let is_extended = self.wait_for_extended;
        self.wait_for_extended = false;
        let key_released = (scancode & 0x80) != 0;
        let key_code = scancode & 0x7f;
        if key_code == LEFT_CTRL {
            self.ctrl_pressed = !key_released;
            None
        } else if key_code == LEFT_SHIFT || key_code == RIGHT_SHIFT {
            self.shift_pressed = !key_released;
            None
        } else if key_code == LEFT_ALT {
            self.alt_pressed = !key_released;
            None
        } else if key_released {
            None
        } else {
            let d = KeyDecoder { wait_for_extended: is_extended, ..*self };
            d.handle_scancode(key_code, is_extended)
        }
    }
}

/// Moves the active screen's cursor one row up, unless it is on the top row.
pub fn move_cursor_up(manager: &mut ScreenManager)
    requires
        old(manager).wf(),
    ensures
        final(manager).with_active_cursor(
            *old(manager),
            if old(manager).active().row > 0 {
                old(manager).active().row - 1
            } else {
                old(manager).active().row
            },
            old(manager).active().col,
        ),
{
    let (row, col) = manager.get_cursor_position();
    let row = if row > 0 {
        row - 1
    } else {
        row
    };
    manager.set_cursor_position(row, col);
}

/// Moves the active screen's cursor one row down, unless it is on the last
/// row or below.
pub fn move_cursor_down(manager: &mut ScreenManager)
    requires
        old(manager).wf(),
    ensures
        final(manager).with_active_cursor(
            *old(manager),
            if old(manager).active().row < BUFFER_HEIGHT - 1 {
                old(manager).active().row + 1
            } else {
                old(manager).active().row
            },
            old(manager).active().col,
        ),
{
    let (row, col) = manager.get_cursor_position();
    let row = if row < BUFFER_HEIGHT - 1 {
        row + 1
    } else {
        row
    };
    manager.set_cursor_position(row, col);
}

/// Moves the active screen's cursor one column left, unless it is in the
/// first column.
pub fn move_cursor_left(manager: &mut ScreenManager)
    requires
        old(manager).wf(),
    ensures
        final(manager).with_active_cursor(
            *old(manager),
            old(manager).active().row,
            if old(manager).active().col > 0 {
                old(manager).active().col - 1
            } else {
                old(manager).active().col
            },
        ),
{
    let (row, col) = manager.get_cursor_position();
    let col = if col > 0 {
        col - 1
    } else {
        col
    };
    manager.set_cursor_position(row, col);
}

/// Moves the active screen's cursor one column right, unless it is in the
/// last column or beyond.
pub fn move_cursor_right(manager: &mut ScreenManager)
    requires
        old(manager).wf(),
    ensures
        final(manager).with_active_cursor(
            *old(manager),
            old(manager).active().row,
            if old(manager).active().col < BUFFER_WIDTH - 1 {
                old(manager).active().col + 1
            } else {
                old(manager).active().col
            },
        ),
{
    let (row, col) = manager.get_cursor_position();
    let col = if col < BUFFER_WIDTH - 1 {
        col + 1
    } else {
        col
    };
    manager.set_cursor_position(row, col);
}

/// Writes one byte at the active screen's cursor and shows the result.
pub fn write_at_cursor(manager: &mut ScreenManager, c: u8)
    requires
        old(manager).wf(),
    ensures
        final(manager).with_screen_shown(
            *old(manager),
            old(manager).active_screen_id as int,
            old(manager).active().write_byte(c),
        ),
        final(manager).in_sync(),
{
    let id = manager.get_active_screen_id();
    manager.write_byte_to(id, c);
    manager.refresh_if_active(id);
}

/// Moves the active screen's cursor to the top left.
pub fn move_cursor_home(manager: &mut ScreenManager)
    requires
        old(manager).wf(),
    ensures
        final(manager).with_active_cursor(*old(manager), 0, 0),
{
    manager.set_cursor_position(0, 0);
}

/// Moves the active screen's cursor to the bottom right cell.
pub fn move_cursor_end(manager: &mut ScreenManager)
    requires
        old(manager).wf(),
    ensures
        final(manager).with_active_cursor(*old(manager), BUFFER_HEIGHT - 1, BUFFER_WIDTH - 1),
{
    manager.set_cursor_position(BUFFER_HEIGHT - 1, BUFFER_WIDTH - 1);
}

/// The active screen after a raw backspace: one column left, and that cell
/// blanked when it lies on the grid.
pub open spec fn erased_before(s: ScreenState) -> ScreenState {
    if s.col > 0 {
        let c = s.col - 1;
        ScreenState {
            col: c,
            grid: if s.row < BUFFER_HEIGHT {
                put_cell(s.grid, s.row, c, glyph(0x20))
            } else {
                s.grid
            },
            ..s
        }
    } else {
        s
    }
}

/// The active screen with the cell under the cursor blanked, when it lies
/// on the grid.
pub open spec fn erased_at(s: ScreenState) -> ScreenState {
    if s.row < BUFFER_HEIGHT && s.col < BUFFER_WIDTH {
        ScreenState { grid: put_cell(s.grid, s.row, s.col, glyph(0x20)), ..s }
    } else {
        s
    }
}

/// Moves the active screen's cursor one column left and blanks the cell
/// there, then shows the screen.
pub fn handle_backspace(manager: &mut ScreenManager)
    requires
        old(manager).wf(),
    ensures
        final(manager).with_screen_shown(
            *old(manager),
            old(manager).active_screen_id as int,
            erased_before(old(manager).active()),
        ),
        final(manager).in_sync(),
{
    let id = manager.get_active_screen_id();
    let (row, col) = manager.get_cursor_position();
    if col > 0 {
        manager.place_cursor(id, row, col - 1);
        if row < BUFFER_HEIGHT {
            manager.write_byte_at(id, row, col - 1, 0x20);
        }
    }
    manager.refresh_if_active(id);
}

/// Blanks the cell under the active screen's cursor and shows the screen.
pub fn handle_delete(manager: &mut ScreenManager)
    requires
        old(manager).wf(),
    ensures
        final(manager).with_screen_shown(
            *old(manager),
            old(manager).active_screen_id as int,
            erased_at(old(manager).active()),
        ),
        final(manager).in_sync(),
{
    let id = manager.get_active_screen_id();
    let (row, col) = manager.get_cursor_position();
    if row < BUFFER_HEIGHT && col < BUFFER_WIDTH {
        manager.write_byte_at(id, row, col, 0x20);
    }
    manager.refresh_if_active(id);
}

/// Logged on the log screen when a screen switch fails.
pub const SWITCH_FAILED: &'static str = "Fatal error switching the screen\n";

/// The screen that a switch key leads to: the other one of the two.
pub open spec fn other_screen(active: usize) -> usize {
    if active == 1 {
        2
    } else {
        1
    }
}

/// What handling `event` did, from handler `h0` and manager `m0` to `h1`
/// and `m1`, returning `r`: characters and editing keys go to the line
/// editor, up and down move the active screen's cursor, Enter runs the
/// line, and the switch keys flip between the two screens, logging a
/// failure.
pub open spec fn handled(
    h0: CommandHandler,
    m0: ScreenManager,
    event: Option<KeyEvents>,
    h1: CommandHandler,
    m1: ScreenManager,
    r: Option<Command>,
) -> bool {
    let s0 = user_screen(m0);
    let a = m0.active();
    match event {
        None => h1 == h0 && m1 == m0 && r is None,
        Some(KeyEvents::Character(c)) => {
            &&& r is None
            &&& h1.line() == h0.line().type_char(c)
            &&& h1.same_prompt(h0)
            &&& if h0.buffer_len >= COMMAND_BUFFER_SIZE - 1 || c == 0x0a {
                h1 == h0 && m1 == m0
            } else {
                shown_on_user_screen(m1, m0, h0.typed_screen(s0, c))
            }
        },
        Some(KeyEvents::ArrowUp) => {
            &&& r is None
            &&& h1 == h0
            &&& m1.with_active_cursor(
                m0,
                if a.row > 0 {
                    a.row - 1
                } else {
                    a.row
                },
                a.col,
            )
        },
        Some(KeyEvents::ArrowDown) => {
            &&& r is None
            &&& h1 == h0
            &&& m1.with_active_cursor(
                m0,
                if a.row < BUFFER_HEIGHT - 1 {
                    a.row + 1
                } else {
                    a.row
                },
                a.col,
            )
        },
        Some(KeyEvents::ArrowLeft) => moved(h0, m0, h1, m1, r, h0.line().move_left().cursor),
        Some(KeyEvents::ArrowRight) => moved(h0, m0, h1, m1, r, h0.line().move_right().cursor),
        Some(KeyEvents::Home) => moved(h0, m0, h1, m1, r, h0.line().move_home().cursor),
        Some(KeyEvents::End) => moved(h0, m0, h1, m1, r, h0.line().move_end().cursor),
        Some(KeyEvents::BackSpace) => {
            &&& r is None
            &&& h1.line() == h0.line().erase_back()
            &&& h1.same_prompt(h0)
            &&& shown_on_user_screen(
                m1,
                m0,
                if h0.cursor > 0 {
                    h0.erased_screen(s0, h0.cursor - 1)
                } else {
                    s0
                },
            )
        },
        Some(KeyEvents::Delete) => {
            &&& r is None
            &&& h1.line() == h0.line().erase_forward()
            &&& h1.same_prompt(h0)
            &&& shown_on_user_screen(
                m1,
                m0,
                if h0.cursor < h0.buffer_len {
                    h0.erased_screen(s0, h0.cursor as int)
                } else {
                    s0
                },
            )
        },
        Some(KeyEvents::Enter) => {
            let s = h0.after_enter(s0);
            &&& r == h0.outcome()
            &&& h1.line().content.len() == 0 && h1.cursor == 0
            &&& shown_on_user_screen(m1, m0, s)
            &&& if m0.populated(USER_SCREEN as int) && !(r matches Some(c) && is_terminal(c)) {
                h1.prompt_start_row == s.row && h1.prompt_start_col == s.col
            } else {
                h1.same_prompt(h0)
            }
        },
        Some(KeyEvents::SwitchScreenLeft) | Some(KeyEvents::SwitchScreenRight) => {
            let target = other_screen(m0.active_screen_id);
            &&& r is None
            &&& h1 == h0
            &&& if m0.populated(target as int) {
                &&& m1.wf()
                &&& m1.screens == m0.screens
                &&& m1.active_screen_id == target
                &&& m1.in_sync()
            } else {
                logged(
                    m1,
                    m0,
                    encode_utf8(level_tag(LogLevel::Critical)),
                    SWITCH_FAILED.spec_bytes(),
                )
            }
        },
    }
}

/// The line's cursor went to `cursor` and the user screen shows it there.
pub open spec fn moved(
    h0: CommandHandler,
    m0: ScreenManager,
    h1: CommandHandler,
    m1: ScreenManager,
    r: Option<Command>,
    cursor: int,
) -> bool {
    &&& r is None
    &&& h1 == (CommandHandler { cursor: h1.cursor, ..h0 })
    &&& h1.cursor == cursor
    &&& shown_on_user_screen(m1, m0, h1.placed(user_screen(m0)))
}

/// Feeds one scancode byte to the decoder and acts on the event it yields.
/// Returns the command that Enter ran, if any; reboot and halt are left to
/// the caller to perform.
pub fn listen_to_keyboard_events(
    decoder: &mut KeyDecoder,
    handler: &mut CommandHandler,
    manager: &mut ScreenManager,
    scancode: u8,
) -> (r: Option<Command>)
    requires
        old(handler).wf(),
        old(manager).wf(),
    ensures
        *final(decoder) == next_decoder(*old(decoder), scancode),
        final(handler).wf(),
        final(manager).wf(),
        handled(
            *old(handler),
            *old(manager),
            decoded_event(*old(decoder), scancode),
            *final(handler),
            *final(manager),
            r,
        ),
{
    let event = decoder.decode(scancode);
    match event {
        None => None,
        Some(KeyEvents::Character(c)) => {
            let _ = handler.add_char(c, manager);
            None
        },
        Some(KeyEvents::ArrowUp) => {
            move_cursor_up(manager);
            None
        },
        Some(KeyEvents::ArrowDown) => {
            move_cursor_down(manager);
            None
        },
        Some(KeyEvents::ArrowLeft) => {
            handler.move_cursor_left(manager);
            None
        },
        Some(KeyEvents::ArrowRight) => {
            handler.move_cursor_right(manager);
            None
        },
        Some(KeyEvents::Home) => {
            handler.move_cursor_home(manager);
            None
        },
        Some(KeyEvents::End) => {
            handler.move_cursor_end(manager);
            None
        },
        Some(KeyEvents::BackSpace) => {
            handler.backspace(manager);
            None
        },
        Some(KeyEvents::Delete) => {
            handler.delete_char(manager);
            None
        },
        Some(KeyEvents::Enter) => handler.handle_enter(manager),
        Some(KeyEvents::SwitchScreenLeft) | Some(KeyEvents::SwitchScreenRight) => {
            let current = manager.get_active_screen_id();
            let target = if current == 1 {
                2
            } else {
                1
            };
            if !manager.switch_screen(target) {
                Logger::new(LogLevel::Critical).write_str(manager, SWITCH_FAILED);
            }
            None
        },
    }
}

} // verus!
