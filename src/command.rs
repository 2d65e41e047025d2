use vstd::prelude::*;
use vstd::string::StringSliceAdditionalSpecFns;
use vstd::utf8::valid_utf8;
use crate::manager::{lemma_refreshed, lemma_shown_chain, lemma_with_screen_chain, ScreenManager};
use crate::screen::{glyph, lemma_write_bytes_concat, put_cell, ScreenState, BUFFER_HEIGHT, BUFFER_WIDTH};

verus! {

/// Capacity of the line buffer; one byte less is usable.
pub const COMMAND_BUFFER_SIZE: usize = 256;

/// The screen that the line editor and the commands use.
pub const USER_SCREEN: usize = 2;

pub const PROMPT: &'static str = "> ";

pub const HELP_TEXT: &'static str = "Available commands:\n  help   - Show this help message\n  clear  - Clear the screen\n  reboot - Restart the system\n  halt   - Halt the system (safe to power off)\n\n";

pub const REBOOT_MESSAGE: &'static str = "Rebooting system...\n";

pub const HALT_MESSAGE: &'static str = "System halted. Safe to power off.\n";

pub const UNKNOWN_PREFIX: &'static str = "unknown command: ";

pub const UNKNOWN_HINT: &'static str = "\nType 'help' for available commands.\n";

pub const WELCOME_TEXT: &'static str = "#                             Welcome to the User Terminal                     #\n\nType 'help' for available commands.\n";

pub const REBOOT_VERB: &'static str = "reboot";

pub const HALT_VERB: &'static str = "halt";

pub const CLEAR_VERB: &'static str = "clear";

pub const HELP_VERB: &'static str = "help";

/// A builtin command, or none of them.
#[derive(Clone, Copy, Debug, PartialEq, Eq, Structural)]
pub enum Command {
    Reboot,
    Halt,
    Clear,
    Help,
    Unknown,
}

/// The text being edited and the cursor's offset into it.
pub struct LineState {
    pub content: Seq<u8>,
    pub cursor: int,
}

impl LineState {
    pub open spec fn empty() -> LineState {
        LineState { content: Seq::empty(), cursor: 0 }
    }

    /// The cursor lies in the text, and the text leaves the buffer's last
    /// byte free.
    pub open spec fn valid(self) -> bool {
        0 <= self.cursor <= self.content.len() <= COMMAND_BUFFER_SIZE - 1
    }

    /// Typing `ch`: inserted at the cursor, which moves past it; refused
    /// when the buffer is full or `ch` is a newline.
    pub open spec fn type_char(self, ch: u8) -> LineState {
        if self.content.len() >= COMMAND_BUFFER_SIZE - 1 || ch == 0x0a {
            self
        } else {
            LineState { content: self.content.insert(self.cursor, ch), cursor: self.cursor + 1 }
        }
    }

    /// Typing every byte of `s` in order.
    pub open spec fn type_all(self, s: Seq<u8>) -> LineState
        decreases s.len(),
    {
        if s.len() == 0 {
            self
        } else {
            self.type_all(s.drop_last()).type_char(s.last())
        }
    }

    /// Forward delete: the byte under the cursor goes.
    pub open spec fn erase_forward(self) -> LineState {
        if self.cursor >= self.content.len() {
            self
        } else {
            LineState { content: self.content.remove(self.cursor), cursor: self.cursor }
        }
    }

    /// Backspace: the byte before the cursor goes, and the cursor with it.
    pub open spec fn erase_back(self) -> LineState {
        if self.cursor <= 0 {
            self
        } else {
            LineState { content: self.content.remove(self.cursor - 1), cursor: self.cursor - 1 }
        }
    }

    pub open spec fn move_left(self) -> LineState {
        LineState {
            cursor: if self.cursor > 0 {
                self.cursor - 1
            } else {
                self.cursor
            },
            ..self
        }
    }

    pub open spec fn move_right(self) -> LineState {
        LineState {
            cursor: if self.cursor < self.content.len() {
                self.cursor + 1
            } else {
                self.cursor
            },
            ..self
        }
    }

    pub open spec fn move_home(self) -> LineState {
        LineState { cursor: 0, ..self }
    }

    pub open spec fn move_end(self) -> LineState {
        LineState { cursor: self.content.len() as int, ..self }
    }
}

/// `s` with `text[from..to]` drawn on row `row` starting at column `col`
/// for `text[0]`; cells that fall off the grid are skipped.
pub open spec fn drawn(s: ScreenState, row: int, col: int, text: Seq<u8>, from: int, to: int) -> ScreenState {
    ScreenState {
        grid: Seq::new(
            BUFFER_HEIGHT as nat,
            |r: int|
                Seq::new(
                    BUFFER_WIDTH as nat,
                    |c: int|
                        if r == row && from <= c - col < to {
                            glyph(text[c - col])
                        } else {
                            s.grid[r][c]
                        },
                ),
        ),
        ..s
    }
}

/// `s` with its cursor at (row, col), the column clamped to the width.
pub open spec fn at_cursor(s: ScreenState, row: int, col: int) -> ScreenState {
    ScreenState {
        row,
        col: if col <= BUFFER_WIDTH {
            col
        } else {
            BUFFER_WIDTH as int
        },
        ..s
    }
}

/// The manager after the user screen became `s`, shown when it is active;
/// unchanged when there is no user screen.
pub open spec fn shown_on_user_screen(m1: ScreenManager, m0: ScreenManager, s: ScreenState) -> bool {
    if m0.populated(USER_SCREEN as int) {
        m1.with_screen_shown(m0, USER_SCREEN as int, s)
    } else {
        m1 == m0
    }
}

/// The user screen as it stands in `m`.
pub open spec fn user_screen(m: ScreenManager) -> ScreenState {
    m.slot(USER_SCREEN as int)->0
}

/// ASCII whitespace: the bytes that `str::trim` strips among ASCII. Only
/// ASCII is meant here, on purpose: the key decoder produces nothing else,
/// and Unicode whitespace such as U+00A0 is not trimmed.
pub open spec fn is_blank(b: u8) -> bool {
    b == 0x20 || (0x09 <= b && b <= 0x0d)
}

/// The first index at or after `i` that holds no whitespace, or the length.
pub open spec fn skip_blanks(line: Seq<u8>, i: int) -> int
    decreases line.len() - i,
{
    if i < 0 || i >= line.len() || !is_blank(line[i]) {
        i
    } else {
        skip_blanks(line, i + 1)
    }
}

/// The first index at or after `i` that holds whitespace, or the length.
pub open spec fn skip_word(line: Seq<u8>, i: int) -> int
    decreases line.len() - i,
{
    if i < 0 || i >= line.len() || is_blank(line[i]) {
        i
    } else {
        skip_word(line, i + 1)
    }
}

/// The first whitespace-separated word of `line`.
pub open spec fn verb_of(line: Seq<u8>) -> Seq<u8> {
    let start = skip_blanks(line, 0);
    line.subrange(start, skip_word(line, start))
}

/// The text of the buffer: its bytes when they are UTF-8, else nothing.
pub open spec fn line_text(content: Seq<u8>) -> Seq<u8> {
    if valid_utf8(content) {
        content
    } else {
        Seq::empty()
    }
}

pub open spec fn parse_verb(verb: Seq<u8>) -> Command {
    if verb == REBOOT_VERB.spec_bytes() {
        Command::Reboot
    } else if verb == CLEAR_VERB.spec_bytes() {
        Command::Clear
    } else if verb == HELP_VERB.spec_bytes() {
        Command::Help
    } else if verb == HALT_VERB.spec_bytes() {
        Command::Halt
    } else {
        Command::Unknown
    }
}

/// The user screen after a command ran on it.
pub open spec fn command_output(s: ScreenState, cmd: Command, verb: Seq<u8>) -> ScreenState {
    match cmd {
        Command::Reboot => s.write_bytes(REBOOT_MESSAGE.spec_bytes()),
        Command::Halt => s.write_bytes(HALT_MESSAGE.spec_bytes()),
        Command::Clear => s.cleared(),
        Command::Help => s.write_bytes(HELP_TEXT.spec_bytes()),
        Command::Unknown => s.write_bytes(
            UNKNOWN_PREFIX.spec_bytes() + verb + UNKNOWN_HINT.spec_bytes(),
        ),
    }
}

/// Reboot and halt end the system; no prompt follows them.
pub open spec fn is_terminal(cmd: Command) -> bool {
    cmd == Command::Reboot || cmd == Command::Halt
}

/// Relies on core::str::from_utf8: it succeeds exactly on valid UTF-8, and
/// the text it returns has exactly the given bytes.
#[verifier::external_body]
fn str_from_utf8(bytes: &[u8]) -> (r: Option<&str>)
    ensures
        r is Some <==> valid_utf8(bytes@),
        r matches Some(t) ==> t.spec_bytes() == bytes@,
{
    core::str::from_utf8(bytes).ok()
}

pub proof fn lemma_drawn_empty(s: ScreenState, row: int, col: int, text: Seq<u8>, from: int)
    requires
        s.wf(),
    ensures
        drawn(s, row, col, text, from, from) == s,
{
    assert(drawn(s, row, col, text, from, from).grid =~~= s.grid);
}

pub proof fn lemma_drawn_step(s: ScreenState, row: int, col: int, text: Seq<u8>, from: int, i: int)
    requires
        s.wf(),
        from <= i,
    ensures
        drawn(s, row, col, text, from, i).wf(),
        0 <= row < BUFFER_HEIGHT && 0 <= col + i < BUFFER_WIDTH ==> drawn(
            s,
            row,
            col,
            text,
            from,
            i + 1,
        ) == (ScreenState {
            grid: put_cell(drawn(s, row, col, text, from, i).grid, row, col + i, glyph(text[i])),
            ..drawn(s, row, col, text, from, i)
        }),
        !(0 <= row < BUFFER_HEIGHT && 0 <= col + i < BUFFER_WIDTH) ==> drawn(
            s,
            row,
            col,
            text,
            from,
            i + 1,
        ) == drawn(s, row, col, text, from, i),
{
    let a = drawn(s, row, col, text, from, i);
    let b = drawn(s, row, col, text, from, i + 1);
    if 0 <= row < BUFFER_HEIGHT && 0 <= col + i < BUFFER_WIDTH {
        assert(b.grid =~~= put_cell(a.grid, row, col + i, glyph(text[i])));
    } else {
        assert(b.grid =~~= a.grid);
    }
}

/// The line editor of the user screen.
pub struct CommandHandler {
    pub buffer: [u8; COMMAND_BUFFER_SIZE],
    pub buffer_len: usize,
    pub cursor: usize,
    pub prompt_start_col: usize,
    pub prompt_start_row: usize,
}

impl CommandHandler {
    pub open spec fn content(&self) -> Seq<u8> {
        self.buffer@.subrange(0, self.buffer_len as int)
    }

    pub open spec fn line(&self) -> LineState {
        LineState { content: self.content(), cursor: self.cursor as int }
    }

    /// The line is valid, the bytes past it are zero, and the prompt
    /// anchor's column lies within the width, as a screen cursor's does.
    pub open spec fn wf(&self) -> bool {
        &&& self.buffer_len < COMMAND_BUFFER_SIZE
        &&& self.cursor <= self.buffer_len
        &&& forall|i: int| self.buffer_len <= i < COMMAND_BUFFER_SIZE ==> self.buffer@[i] == 0
        &&& self.prompt_start_col <= BUFFER_WIDTH
    }

    /// The prompt anchor is that of `h`.
    pub open spec fn same_prompt(&self, h: CommandHandler) -> bool {
        &&& self.prompt_start_row == h.prompt_start_row
        &&& self.prompt_start_col == h.prompt_start_col
    }

    /// The user screen with the cursor placed at the line's cursor.
    pub open spec fn placed(&self, s: ScreenState) -> ScreenState {
        at_cursor(s, self.prompt_start_row as int, self.prompt_start_col + self.cursor)
    }

    /// The user screen after `ch` was typed into `self`: a plain write at the
    /// screen's cursor when appending, else the tail redrawn in place.
    pub open spec fn typed_screen(&self, s: ScreenState, ch: u8) -> ScreenState {
        if self.cursor == self.buffer_len {
            s.write_byte(ch)
        } else {
            at_cursor(
                drawn(
                    s,
                    self.prompt_start_row as int,
                    self.prompt_start_col as int,
                    self.content().insert(self.cursor as int, ch),
                    self.cursor as int,
                    self.buffer_len + 1,
                ),
                self.prompt_start_row as int,
                self.prompt_start_col + self.cursor + 1,
            )
        }
    }

    /// The user screen after the byte at `at` was removed from `self`'s
    /// line: the tail redrawn from `at`, the freed cell blanked, and the
    /// cursor placed at `at`.
    pub open spec fn erased_screen(&self, s: ScreenState, at: int) -> ScreenState {
        at_cursor(
            drawn(
                s,
                self.prompt_start_row as int,
                self.prompt_start_col as int,
                self.content().remove(at).push(0x20),
                at,
                self.buffer_len as int,
            ),
            self.prompt_start_row as int,
            self.prompt_start_col + at,
        )
    }

    /// The first word of the line's text.
    pub open spec fn verb(&self) -> Seq<u8> {
        verb_of(line_text(self.content()))
    }

    /// What running the line does: nothing for an empty line, else the
    /// command that its first word names.
    pub open spec fn outcome(&self) -> Option<Command> {
        if self.buffer_len == 0 {
            None
        } else {
            Some(parse_verb(self.verb()))
        }
    }

    /// An empty line with the prompt anchored at the top left.
    pub fn new() -> (h: CommandHandler)
        ensures
            h.wf(),
            h.line() == LineState::empty(),
            h.prompt_start_row == 0,
            h.prompt_start_col == 0,
    {
        let h = CommandHandler {
            buffer: [0u8; COMMAND_BUFFER_SIZE],
            buffer_len: 0,
            cursor: 0,
            prompt_start_col: 0,
            prompt_start_row: 0,
        };
        assert(h.content() =~= Seq::empty());
        h
    }

    /// Records where the prompt ends: the screen position of offset 0.
    pub fn set_prompt_position(&mut self, row: usize, col: usize)
        requires
            col <= BUFFER_WIDTH,
        ensures
            *final(self) == (CommandHandler {
                prompt_start_row: row,
                prompt_start_col: col,
                ..*old(self)
            }),
    {
        self.prompt_start_row = row;
        self.prompt_start_col = col;
    }

    /// Draws the line from offset `from` on the prompt row of the user
    /// screen, and a blank after it when `blank_end` holds; nothing is shown.
    fn redraw_from(&self, manager: &mut ScreenManager, from: usize, blank_end: bool)
        requires
            self.wf(),
            old(manager).wf(),
            from <= self.buffer_len,
        ensures
            ({
                let text = if blank_end {
                    self.content().push(0x20)
                } else {
                    self.content()
                };
                let s = drawn(
                    user_screen(*old(manager)),
                    self.prompt_start_row as int,
                    self.prompt_start_col as int,
                    text,
                    from as int,
                    text.len() as int,
                );
                if old(manager).populated(USER_SCREEN as int) {
                    final(manager).with_screen(*old(manager), USER_SCREEN as int, s)
                } else {
                    *final(manager) == *old(manager)
                }
            }),
    {
        let ghost text = if blank_end {
            self.content().push(0x20)
        } else {
            self.content()
        };
        let ghost s0 = user_screen(*old(manager));
        let ghost row = self.prompt_start_row as int;
        let ghost col = self.prompt_start_col as int;
        let end = if blank_end {
            self.buffer_len + 1
        } else {
            self.buffer_len
        };
        proof {
            if old(manager).populated(USER_SCREEN as int) {
                lemma_drawn_empty(s0, row, col, text, from as int);
            }
        }
        let mut i: usize = from;
        while i < end
            invariant
                from <= i <= end,
                end == text.len(),
                self.wf(),
                old(manager).wf(),
                text == (if blank_end {
                    self.content().push(0x20)
                } else {
                    self.content()
                }),
                s0 == user_screen(*old(manager)),
                row == self.prompt_start_row,
                col == self.prompt_start_col,
                old(manager).populated(USER_SCREEN as int) ==> manager.with_screen(
                    *old(manager),
                    USER_SCREEN as int,
                    drawn(s0, row, col, text, from as int, i as int),
                ),
                !old(manager).populated(USER_SCREEN as int) ==> *manager == *old(manager),
            decreases end - i,
        {
            proof {
                if old(manager).populated(USER_SCREEN as int) {
                    lemma_drawn_step(s0, row, col, text, from as int, i as int);
                }
            }
            let c = self.prompt_start_col + i;
            if self.prompt_start_row < BUFFER_HEIGHT && c < BUFFER_WIDTH {
                let b = if i < self.buffer_len {
                    self.buffer[i]
                } else {
                    0x20
                };
                manager.write_byte_at(USER_SCREEN, self.prompt_start_row, c, b);
            }
            i = i + 1;
        }
    }

    /// Puts the user screen's cursor at the line's cursor; nothing is shown.
    fn place_screen_cursor(&self, manager: &mut ScreenManager)
        requires
            self.wf(),
            old(manager).wf(),
        ensures
            old(manager).populated(USER_SCREEN as int) ==> final(manager).with_screen(
                *old(manager),
                USER_SCREEN as int,
                self.placed(user_screen(*old(manager))),
            ),
            !old(manager).populated(USER_SCREEN as int) ==> *final(manager) == *old(manager),
    {
        let c = self.prompt_start_col + self.cursor;
        let c = if c <= BUFFER_WIDTH {
            c
        } else {
            BUFFER_WIDTH
        };
        manager.place_cursor(USER_SCREEN, self.prompt_start_row, c);
    }

    /// Removes the byte at `at`, moving the rest of the line left and
    /// zeroing the freed byte; the cursor and the prompt stay.
    fn remove_at(&mut self, at: usize)
        requires
            old(self).wf(),
            at < old(self).buffer_len,
            old(self).cursor <= old(self).buffer_len - 1,
        ensures
            final(self).wf(),
            final(self).content() == old(self).content().remove(at as int),
            final(self).buffer_len == old(self).buffer_len - 1,
            final(self).cursor == old(self).cursor,
            final(self).same_prompt(*old(self)),
    {
        let len = self.buffer_len;
        let mut i: usize = at;
        while i + 1 < len
            invariant
                at <= i < len,
                len == old(self).buffer_len,
                len < COMMAND_BUFFER_SIZE,
                self.buffer_len == len,
                self.cursor == old(self).cursor,
                self.same_prompt(*old(self)),
                forall|k: int| 0 <= k < at ==> self.buffer@[k] == old(self).buffer@[k],
                forall|k: int| at <= k < i ==> self.buffer@[k] == old(self).buffer@[k + 1],
                forall|k: int| i <= k < COMMAND_BUFFER_SIZE ==> self.buffer@[k] == old(self).buffer@[k],
            decreases len - i,
        {
            self.buffer[i] = self.buffer[i + 1];
            i = i + 1;
        }
        self.buffer_len = len - 1;
        self.buffer[len - 1] = 0;
        assert(self.content() =~= old(self).content().remove(at as int));
    }

    /// Inserts `ch` at the cursor and redraws it on the user screen, and
    /// returns true. Refused, with false and nothing changed, when the buffer
    /// is full or `ch` is a newline.
    pub fn add_char(&mut self, ch: u8, manager: &mut ScreenManager) -> (r: bool)
        requires
            old(self).wf(),
            old(manager).wf(),
        ensures
            r == !(old(self).buffer_len >= COMMAND_BUFFER_SIZE - 1 || ch == 0x0a),
            final(self).wf(),
            final(manager).wf(),
            final(self).line() == old(self).line().type_char(ch),
            final(self).same_prompt(*old(self)),
            old(self).buffer_len >= COMMAND_BUFFER_SIZE - 1 || ch == 0x0a ==> *final(self)
                == *old(self) && *final(manager) == *old(manager),
            !(old(self).buffer_len >= COMMAND_BUFFER_SIZE - 1 || ch == 0x0a)
                ==> shown_on_user_screen(
                *final(manager),
                *old(manager),
                old(self).typed_screen(user_screen(*old(manager)), ch),
            ),
    {
        if self.buffer_len >= COMMAND_BUFFER_SIZE - 1 || ch == 0x0a {
            return false;
        }
        let pos = self.cursor;
        let len = self.buffer_len;
        let mut i: usize = len;
        while i > pos
            invariant
                pos <= i <= len,
                pos == old(self).cursor,
                len == old(self).buffer_len,
                len < COMMAND_BUFFER_SIZE - 1,
                self.buffer_len == len,
                self.cursor == pos,
                self.same_prompt(*old(self)),
                forall|k: int| 0 <= k <= i ==> self.buffer@[k] == old(self).buffer@[k],
                forall|k: int| i < k <= len ==> self.buffer@[k] == old(self).buffer@[k - 1],
                forall|k: int| len < k < COMMAND_BUFFER_SIZE ==> self.buffer@[k] == old(self).buffer@[k],
            decreases i,
        {
            self.buffer[i] = self.buffer[i - 1];
            i = i - 1;
        }
        self.buffer[pos] = ch;
        self.buffer_len = len + 1;
        self.cursor = pos + 1;
        assert(self.content() =~= old(self).content().insert(pos as int, ch));
        let ghost m0 = *old(manager);
        let ghost populated = m0.populated(USER_SCREEN as int);
        let ghost target = old(self).typed_screen(user_screen(m0), ch);
        if pos == len {
            manager.write_byte_to(USER_SCREEN, ch);
        } else {
            self.redraw_from(manager, pos, false);
            let ghost m1 = *manager;
            self.place_screen_cursor(manager);
            proof {
                if populated {
                    lemma_with_screen_chain(
                        m0,
                        m1,
                        *manager,
                        USER_SCREEN as int,
                        user_screen(m1),
                        target,
                    );
                }
            }
        }
        let ghost m2 = *manager;
        manager.refresh_if_active(USER_SCREEN);
        proof {
            if populated {
                lemma_refreshed(m0, m2, *manager, USER_SCREEN as int, target);
            }
        }
        true
    }

    /// Removes the byte under the cursor (forward delete) and redraws the
    /// rest of the line; without a byte there, only shows the user screen.
    pub fn delete_char(&mut self, manager: &mut ScreenManager)
        requires
            old(self).wf(),
            old(manager).wf(),
        ensures
            final(self).wf(),
            final(manager).wf(),
            final(self).line() == old(self).line().erase_forward(),
            final(self).same_prompt(*old(self)),
            shown_on_user_screen(
                *final(manager),
                *old(manager),
                if old(self).cursor < old(self).buffer_len {
                    old(self).erased_screen(user_screen(*old(manager)), old(self).cursor as int)
                } else {
                    user_screen(*old(manager))
                },
            ),
    {
        let ghost m0 = *old(manager);
        let ghost populated = m0.populated(USER_SCREEN as int);
        if self.cursor < self.buffer_len {
            let pos = self.cursor;
            self.remove_at(pos);
            let ghost target = old(self).erased_screen(user_screen(m0), pos as int);
            assert(self.content().push(0x20).len() == old(self).buffer_len);
            self.redraw_from(manager, pos, true);
            let ghost m1 = *manager;
            self.place_screen_cursor(manager);
            proof {
                if populated {
                    lemma_with_screen_chain(m0, m1, *manager, USER_SCREEN as int, user_screen(m1), target);
                }
            }
            let ghost m2 = *manager;
            manager.refresh_if_active(USER_SCREEN);
            proof {
                if populated {
                    lemma_refreshed(m0, m2, *manager, USER_SCREEN as int, target);
                }
            }
        } else {
            manager.refresh_if_active(USER_SCREEN);
            proof {
                if populated {
                    lemma_refreshed(m0, m0, *manager, USER_SCREEN as int, user_screen(m0));
                }
            }
        }
    }

    /// Removes the byte before the cursor, moves the cursor back onto its
    /// place and redraws the rest of the line; at offset 0, only shows the
    /// user screen.
    pub fn backspace(&mut self, manager: &mut ScreenManager)
        requires
            old(self).wf(),
            old(manager).wf(),
        ensures
            final(self).wf(),
            final(manager).wf(),
            final(self).line() == old(self).line().erase_back(),
            final(self).same_prompt(*old(self)),
            shown_on_user_screen(
                *final(manager),
                *old(manager),
                if old(self).cursor > 0 {
                    old(self).erased_screen(user_screen(*old(manager)), old(self).cursor - 1)
                } else {
                    user_screen(*old(manager))
                },
            ),
    {
        let ghost m0 = *old(manager);
        let ghost populated = m0.populated(USER_SCREEN as int);
        if self.cursor > 0 {
            let pos = self.cursor - 1;
            self.cursor = pos;
            self.remove_at(pos);
            let ghost target = old(self).erased_screen(user_screen(m0), pos as int);
            assert(self.content().push(0x20).len() == old(self).buffer_len);
            self.redraw_from(manager, pos, true);
            let ghost m1 = *manager;
            self.place_screen_cursor(manager);
            proof {
                if populated {
                    lemma_with_screen_chain(m0, m1, *manager, USER_SCREEN as int, user_screen(m1), target);
                }
            }
            let ghost m2 = *manager;
            manager.refresh_if_active(USER_SCREEN);
            proof {
                if populated {
                    lemma_refreshed(m0, m2, *manager, USER_SCREEN as int, target);
                }
            }
        } else {
            manager.refresh_if_active(USER_SCREEN);
            proof {
                if populated {
                    lemma_refreshed(m0, m0, *manager, USER_SCREEN as int, user_screen(m0));
                }
            }
        }
    }

    /// Places the user screen's cursor at the line's cursor and shows it.
    fn show_cursor(&self, manager: &mut ScreenManager)
        requires
            self.wf(),
            old(manager).wf(),
        ensures
            final(manager).wf(),
            shown_on_user_screen(*final(manager), *old(manager), self.placed(user_screen(*old(manager)))),
    {
        let ghost m0 = *old(manager);
        self.place_screen_cursor(manager);
        let ghost m1 = *manager;
        manager.refresh_if_active(USER_SCREEN);
        proof {
            if m0.populated(USER_SCREEN as int) {
                lemma_refreshed(m0, m1, *manager, USER_SCREEN as int, self.placed(user_screen(m0)));
            }
        }
    }

    /// One byte left, unless at offset 0.
    pub fn move_cursor_left(&mut self, manager: &mut ScreenManager)
        requires
            old(self).wf(),
            old(manager).wf(),
        ensures
            final(self).wf(),
            final(manager).wf(),
            *final(self) == (CommandHandler { cursor: final(self).cursor, ..*old(self) }),
            final(self).line() == old(self).line().move_left(),
            shown_on_user_screen(*final(manager), *old(manager), final(self).placed(user_screen(*old(manager)))),
    {
        if self.cursor > 0 {
            self.cursor = self.cursor - 1;
        }
        self.show_cursor(manager);
    }

    /// One byte right, unless at the end of the line.
    pub fn move_cursor_right(&mut self, manager: &mut ScreenManager)
        requires
            old(self).wf(),
            old(manager).wf(),
        ensures
            final(self).wf(),
            final(manager).wf(),
            *final(self) == (CommandHandler { cursor: final(self).cursor, ..*old(self) }),
            final(self).line() == old(self).line().move_right(),
            shown_on_user_screen(*final(manager), *old(manager), final(self).placed(user_screen(*old(manager)))),
    {
        if self.cursor < self.buffer_len {
            self.cursor = self.cursor + 1;
        }
        self.show_cursor(manager);
    }

    /// To offset 0.
    pub fn move_cursor_home(&mut self, manager: &mut ScreenManager)
        requires
            old(self).wf(),
            old(manager).wf(),
        ensures
            final(self).wf(),
            final(manager).wf(),
            *final(self) == (CommandHandler { cursor: final(self).cursor, ..*old(self) }),
            final(self).line() == old(self).line().move_home(),
            shown_on_user_screen(*final(manager), *old(manager), final(self).placed(user_screen(*old(manager)))),
    {
        self.cursor = 0;
        self.show_cursor(manager);
    }

    /// To the end of the line.
    pub fn move_cursor_end(&mut self, manager: &mut ScreenManager)
        requires
            old(self).wf(),
            old(manager).wf(),
        ensures
            final(self).wf(),
            final(manager).wf(),
            *final(self) == (CommandHandler { cursor: final(self).cursor, ..*old(self) }),
            final(self).line() == old(self).line().move_end(),
            shown_on_user_screen(*final(manager), *old(manager), final(self).placed(user_screen(*old(manager)))),
    {
        self.cursor = self.buffer_len;
        self.show_cursor(manager);
    }

    /// The user screen after Enter on this line: a newline, the command's
    /// output, and a fresh prompt unless the command ends the system.
    pub open spec fn after_enter(&self, s: ScreenState) -> ScreenState {
        let s1 = s.write_byte(0x0a);
        match self.outcome() {
            None => s1.write_bytes(PROMPT.spec_bytes()),
            Some(cmd) => {
                let s2 = command_output(s1, cmd, self.verb());
                if is_terminal(cmd) {
                    s2
                } else {
                    s2.write_bytes(PROMPT.spec_bytes())
                }
            },
        }
    }

    /// Empties the line: every byte zero, offset 0; the prompt stays.
    fn clear_buffer(&mut self)
        requires
            old(self).wf(),
        ensures
            final(self).wf(),
            final(self).line() == LineState::empty(),
            final(self).buffer@ == Seq::new(COMMAND_BUFFER_SIZE as nat, |i: int| 0u8),
            final(self).same_prompt(*old(self)),
    {
        self.buffer_len = 0;
        self.cursor = 0;
        let mut i: usize = 0;
        while i < COMMAND_BUFFER_SIZE
            invariant
                i <= COMMAND_BUFFER_SIZE,
                self.buffer_len == 0,
                self.cursor == 0,
                self.same_prompt(*old(self)),
                forall|k: int| 0 <= k < i ==> self.buffer@[k] == 0,
            decreases COMMAND_BUFFER_SIZE - i,
        {
            self.buffer[i] = 0;
            i = i + 1;
        }
        assert(self.buffer@ =~= Seq::new(COMMAND_BUFFER_SIZE as nat, |i: int| 0u8));
        assert(self.content() =~= Seq::empty());
    }

    /// The bounds of the line's first word: (start, end) with
    /// `verb() == content()[start..end]`.
    fn find_verb(&self) -> (r: (usize, usize))
        requires
            self.wf(),
        ensures
            r.0 <= r.1 <= self.buffer_len,
            self.verb() == self.content().subrange(r.0 as int, r.1 as int),
    {
        let len = self.buffer_len;
        let text = str_from_utf8(&self.buffer[0..len]);
        assert(self.buffer@.subrange(0, len as int) == self.content());
        if text.is_none() {
            assert(line_text(self.content()) =~= Seq::<u8>::empty());
            assert(self.content().subrange(0, 0) =~= Seq::<u8>::empty());
            return (0, 0);
        }
        let ghost line = self.content();
        let mut i: usize = 0;
        while i < len && is_blank_byte(self.buffer[i])
            invariant
                i <= len,
                len == self.buffer_len,
                len < COMMAND_BUFFER_SIZE,
                line == self.content(),
                skip_blanks(line, 0) == skip_blanks(line, i as int),
            decreases len - i,
        {
            i = i + 1;
        }
        let start = i;
        while i < len && !is_blank_byte(self.buffer[i])
            invariant
                start <= i <= len,
                len == self.buffer_len,
                len < COMMAND_BUFFER_SIZE,
                line == self.content(),
                skip_blanks(line, 0) == start,
                skip_word(line, start as int) == skip_word(line, i as int),
            decreases len - i,
        {
            i = i + 1;
        }
        (start, i)
    }

    /// Whether `content()[start..end]` spells `word`.
    fn verb_is(&self, start: usize, end: usize, word: &str) -> (r: bool)
        requires
            self.wf(),
            start <= end <= self.buffer_len,
        ensures
            r == (self.content().subrange(start as int, end as int) == word.spec_bytes()),
    {
        let w = word.as_bytes();
        if end - start != w.len() {
            assert(self.content().subrange(start as int, end as int).len() != word.spec_bytes().len());
            return false;
        }
        let mut i: usize = 0;
        while i < w.len()
            invariant
                i <= w@.len(),
                w@ == word.spec_bytes(),
                end - start == w@.len(),
                start <= end <= self.buffer_len,
                self.wf(),
                forall|k: int| 0 <= k < i ==> self.buffer@[start + k] == w@[k],
            decreases w@.len() - i,
        {
            if self.buffer[start + i] != w[i] {
                assert(self.content().subrange(start as int, end as int)[i as int] != w@[i as int]);
                return false;
            }
            i = i + 1;
        }
        assert(self.content().subrange(start as int, end as int) =~= w@);
        true
    }

    /// The command that `content()[start..end]` names.
    fn parse_command(&self, start: usize, end: usize) -> (r: Command)
        requires
            self.wf(),
            start <= end <= self.buffer_len,
        ensures
            r == parse_verb(self.content().subrange(start as int, end as int)),
    {
        if self.verb_is(start, end, REBOOT_VERB) {
            Command::Reboot
        } else if self.verb_is(start, end, CLEAR_VERB) {
            Command::Clear
        } else if self.verb_is(start, end, HELP_VERB) {
            Command::Help
        } else if self.verb_is(start, end, HALT_VERB) {
            Command::Halt
        } else {
            Command::Unknown
        }
    }

    /// Writes the reboot notice; the reset itself is the caller's.
    fn execute_reboot(&self, manager: &mut ScreenManager)
        requires
            old(manager).wf(),
        ensures
            final(manager).wf(),
            shown_on_user_screen(
                *final(manager),
                *old(manager),
                user_screen(*old(manager)).write_bytes(REBOOT_MESSAGE.spec_bytes()),
            ),
    {
        manager.write_to_screen(USER_SCREEN, REBOOT_MESSAGE);
    }

    /// Writes the halt notice; stopping the processor is the caller's.
    fn execute_halt(&self, manager: &mut ScreenManager)
        requires
            old(manager).wf(),
        ensures
            final(manager).wf(),
            shown_on_user_screen(
                *final(manager),
                *old(manager),
                user_screen(*old(manager)).write_bytes(HALT_MESSAGE.spec_bytes()),
            ),
    {
        manager.write_to_screen(USER_SCREEN, HALT_MESSAGE);
    }

    /// Blanks the user screen and moves its cursor to the top left.
    fn execute_clear(&self, manager: &mut ScreenManager)
        requires
            old(manager).wf(),
        ensures
            final(manager).wf(),
            shown_on_user_screen(*final(manager), *old(manager), user_screen(*old(manager)).cleared()),
    {
        let ghost m0 = *old(manager);
        if manager.clear_screen(USER_SCREEN) {
            let ghost m1 = *manager;
            manager.refresh_if_active(USER_SCREEN);
            proof {
                lemma_refreshed(m0, m1, *manager, USER_SCREEN as int, user_screen(m0).cleared());
            }
        }
    }

    /// Writes the usage text.
    fn execute_help(&self, manager: &mut ScreenManager)
        requires
            old(manager).wf(),
        ensures
            final(manager).wf(),
            shown_on_user_screen(
                *final(manager),
                *old(manager),
                user_screen(*old(manager)).write_bytes(HELP_TEXT.spec_bytes()),
            ),
    {
        manager.write_to_screen(USER_SCREEN, HELP_TEXT);
    }

    /// Writes an error line naming `content()[start..end]`.
    fn execute_unknown(&self, start: usize, end: usize, manager: &mut ScreenManager)
        requires
            self.wf(),
            start <= end <= self.buffer_len,
            old(manager).wf(),
        ensures
            final(manager).wf(),
            shown_on_user_screen(
                *final(manager),
                *old(manager),
                user_screen(*old(manager)).write_bytes(
                    UNKNOWN_PREFIX.spec_bytes() + self.content().subrange(start as int, end as int)
                        + UNKNOWN_HINT.spec_bytes(),
                ),
            ),
    {
        let ghost verb = self.content().subrange(start as int, end as int);
        let mut word: Vec<u8> = Vec::new();
        let mut i: usize = start;
        while i < end
            invariant
                start <= i <= end <= self.buffer_len,
                self.wf(),
                verb == self.content().subrange(start as int, end as int),
                word@ == verb.subrange(0, i - start),
            decreases end - i,
        {
            word.push(self.buffer[i]);
            i = i + 1;
            assert(word@ =~= verb.subrange(0, i - start));
        }
        assert(word@ =~= verb);
        let ghost m0 = *old(manager);
        let ghost s0 = user_screen(m0);
        let ghost p = UNKNOWN_PREFIX.spec_bytes();
        let ghost h = UNKNOWN_HINT.spec_bytes();
        manager.write_to_screen(USER_SCREEN, UNKNOWN_PREFIX);
        let ghost m1 = *manager;
        manager.write_slice_to_screen(USER_SCREEN, word.as_slice());
        let ghost m2 = *manager;
        manager.write_to_screen(USER_SCREEN, UNKNOWN_HINT);
        proof {
            lemma_write_bytes_concat(s0, p, verb);
            lemma_write_bytes_concat(s0, p + verb, h);
            if m0.populated(USER_SCREEN as int) {
                lemma_shown_chain(
                    m0,
                    m1,
                    m2,
                    USER_SCREEN as int,
                    s0.write_bytes(p),
                    s0.write_bytes(p + verb),
                );
                lemma_shown_chain(
                    m0,
                    m2,
                    *manager,
                    USER_SCREEN as int,
                    s0.write_bytes(p + verb),
                    s0.write_bytes(p + verb + h),
                );
            }
        }
    }

    /// Runs `command`, whose word is `content()[start..end]`.
    fn handle_command(&self, command: Command, start: usize, end: usize, manager: &mut ScreenManager)
        requires
            self.wf(),
            start <= end <= self.buffer_len,
            old(manager).wf(),
        ensures
            final(manager).wf(),
            shown_on_user_screen(
                *final(manager),
                *old(manager),
                command_output(
                    user_screen(*old(manager)),
                    command,
                    self.content().subrange(start as int, end as int),
                ),
            ),
    {
        match command {
            Command::Reboot => self.execute_reboot(manager),
            Command::Clear => self.execute_clear(manager),
            Command::Help => self.execute_help(manager),
            Command::Halt => self.execute_halt(manager),
            Command::Unknown => self.execute_unknown(start, end, manager),
        }
    }

    /// Runs the line: nothing and None when it is empty; else the command
    /// that its first word names writes its output to the user screen, the
    /// line is emptied, and the command is returned. Reboot and halt only
    /// write their notice: the caller performs them.
    pub fn execute_command(&mut self, manager: &mut ScreenManager) -> (r: Option<Command>)
        requires
            old(self).wf(),
            old(manager).wf(),
        ensures
            final(manager).wf(),
            r == old(self).outcome(),
            r is None ==> *final(self) == *old(self) && *final(manager) == *old(manager),
            r matches Some(cmd) ==> {
                &&& final(self).wf()
                &&& final(self).line() == LineState::empty()
                &&& final(self).buffer@ == Seq::new(COMMAND_BUFFER_SIZE as nat, |i: int| 0u8)
                &&& final(self).same_prompt(*old(self))
                &&& shown_on_user_screen(
                    *final(manager),
                    *old(manager),
                    command_output(user_screen(*old(manager)), cmd, old(self).verb()),
                )
            },
    {
        if self.buffer_len == 0 {
            return None;
        }
        let (start, end) = self.find_verb();
        let command = self.parse_command(start, end);
        self.handle_command(command, start, end, manager);
        self.clear_buffer();
        Some(command)
    }

    /// Enter: a newline on the user screen, then the line runs, then a new
    /// prompt is written and anchored, unless the command ends the system.
    /// Returns what `execute_command` returned.
    pub fn handle_enter(&mut self, manager: &mut ScreenManager) -> (r: Option<Command>)
        requires
            old(self).wf(),
            old(manager).wf(),
        ensures
            final(self).wf(),
            final(manager).wf(),
            r == old(self).outcome(),
            final(self).line() == LineState::empty(),
            shown_on_user_screen(
                *final(manager),
                *old(manager),
                old(self).after_enter(user_screen(*old(manager))),
            ),
            ({
                let s = old(self).after_enter(user_screen(*old(manager)));
                if old(manager).populated(USER_SCREEN as int) && !(r matches Some(c)
                    && is_terminal(c)) {
                    final(self).prompt_start_row == s.row && final(self).prompt_start_col == s.col
                } else {
                    final(self).same_prompt(*old(self))
                }
            }),
    {
        let ghost m0 = *old(manager);
        let ghost s0 = user_screen(m0);
        let ghost populated = m0.populated(USER_SCREEN as int);
        manager.write_byte_to(USER_SCREEN, 0x0a);
        let ghost m1 = *manager;
        manager.refresh_if_active(USER_SCREEN);
        proof {
            if populated {
                lemma_refreshed(m0, m1, *manager, USER_SCREEN as int, s0.write_byte(0x0a));
            }
        }
        let ghost m2 = *manager;
        let r = self.execute_command(manager);
        let ghost m3 = *manager;
        let ghost s1 = s0.write_byte(0x0a);
        let ghost s2 = match r {
            Some(cmd) => command_output(s1, cmd, old(self).verb()),
            None => s1,
        };
        proof {
            if populated {
                lemma_shown_chain(m0, m2, m3, USER_SCREEN as int, s1, s2);
            }
        }
        if let Some(cmd) = r {
            if cmd == Command::Reboot || cmd == Command::Halt {
                return r;
            }
        }
        assert(self.content() =~= Seq::<u8>::empty());
        manager.write_to_screen(USER_SCREEN, PROMPT);
        proof {
            if populated {
                lemma_shown_chain(
                    m0,
                    m3,
                    *manager,
                    USER_SCREEN as int,
                    s2,
                    s2.write_bytes(PROMPT.spec_bytes()),
                );
            }
        }
        if let Some(screen) = manager.get_screen(USER_SCREEN) {
            self.set_prompt_position(screen.row_position, screen.column_position);
        }
        r
    }

    /// The number of bytes in the line.
    pub fn get_buffer_len(&self) -> (n: usize)
        ensures
            n == self.buffer_len,
    {
        self.buffer_len
    }

    /// The line as text; empty when its bytes are not UTF-8.
    pub fn get_command_str(&self) -> (t: &str)
        requires
            self.wf(),
        ensures
            t.spec_bytes() == line_text(self.content()),
    {
        match str_from_utf8(&self.buffer[0..self.buffer_len]) {
            Some(t) => t,
            None => {
                proof {
                    reveal_strlit("");
                }
                ""
            },
        }
    }
}

/// Whether `b` is ASCII whitespace, as `is_blank` says.
pub fn is_blank_byte(b: u8) -> (r: bool)
    ensures
        r == is_blank(b),
{
    b == 0x20 || (0x09 <= b && b <= 0x0d)
}

/// A line editor for the user screen: the welcome text and a prompt are
/// written there, and the prompt is anchored where the prompt ends.
pub fn init_command_handler(manager: &mut ScreenManager) -> (h: CommandHandler)
    requires
        old(manager).wf(),
    ensures
        h.wf(),
        final(manager).wf(),
        h.line() == LineState::empty(),
        ({
            let s = user_screen(*old(manager)).write_bytes(WELCOME_TEXT.spec_bytes()).write_bytes(
                PROMPT.spec_bytes(),
            );
            &&& shown_on_user_screen(*final(manager), *old(manager), s)
            &&& old(manager).populated(USER_SCREEN as int) ==> h.prompt_start_row == s.row
                && h.prompt_start_col == s.col
        }),
{
    let ghost m0 = *old(manager);
    let ghost s0 = user_screen(m0);
    let mut h = CommandHandler::new();
    manager.write_to_screen(USER_SCREEN, WELCOME_TEXT);
    let ghost m1 = *manager;
    manager.write_to_screen(USER_SCREEN, PROMPT);
    proof {
        if m0.populated(USER_SCREEN as int) {
            lemma_shown_chain(
                m0,
                m1,
                *manager,
                USER_SCREEN as int,
                s0.write_bytes(WELCOME_TEXT.spec_bytes()),
                s0.write_bytes(WELCOME_TEXT.spec_bytes()).write_bytes(PROMPT.spec_bytes()),
            );
        }
    }
    if let Some(screen) = manager.get_screen(USER_SCREEN) {
        h.set_prompt_position(screen.row_position, screen.column_position);
    }
    h
}

/// Typing bytes into an empty line, none of them a newline and no more
/// than fit, leaves exactly those bytes in order with the cursor after the
/// last one.
pub proof fn lemma_typing_appends(typed: Seq<u8>)
    requires
        typed.len() <= COMMAND_BUFFER_SIZE - 1,
        forall|i: int| 0 <= i < typed.len() ==> typed[i] != 0x0a,
    ensures
        LineState::empty().type_all(typed) == (LineState {
            content: typed,
            cursor: typed.len() as int,
        }),
    decreases typed.len(),
{
    if typed.len() > 0 {
        let init = typed.drop_last();
        lemma_typing_appends(init);
        assert(init.insert(init.len() as int, typed.last()) =~= typed);
    } else {
        assert(typed =~= Seq::<u8>::empty());
    }
}

/// Typing a byte and then backspacing restores the line: same bytes, same
/// cursor.
pub proof fn lemma_type_then_backspace(line: LineState, ch: u8)
    requires
        line.valid(),
        line.content.len() < COMMAND_BUFFER_SIZE - 1,
        ch != 0x0a,
    ensures
        line.type_char(ch).erase_back() == line,
{
    assert(line.content.insert(line.cursor, ch).remove(line.cursor) =~= line.content);
}

/// The same holds of the whole buffer: after `add_char(ch)` and then
/// `backspace()`, every byte of the buffer, the length and the cursor are
/// as before.
pub proof fn lemma_add_char_then_backspace(
    h0: CommandHandler,
    h1: CommandHandler,
    h2: CommandHandler,
    ch: u8,
)
    requires
        h0.wf(),
        h1.wf(),
        h2.wf(),
        h0.buffer_len < COMMAND_BUFFER_SIZE - 1,
        ch != 0x0a,
        h1.line() == h0.line().type_char(ch),
        h2.line() == h1.line().erase_back(),
    ensures
        h2.buffer@ == h0.buffer@,
        h2.buffer_len == h0.buffer_len,
        h2.cursor == h0.cursor,
{
    lemma_type_then_backspace(h0.line(), ch);
    lemma_line_fixes_buffer(h0, h2);
}

/// A well-formed handler's buffer is its line followed by zeros.
pub proof fn lemma_line_fixes_buffer(a: CommandHandler, b: CommandHandler)
    requires
        a.wf(),
        b.wf(),
        a.line() == b.line(),
    ensures
        a.buffer@ == b.buffer@,
        a.buffer_len == b.buffer_len,
{
    assert(a.content().len() == b.content().len());
    assert forall|i: int| 0 <= i < COMMAND_BUFFER_SIZE implies a.buffer@[i] == b.buffer@[i] by {
        if i < a.buffer_len {
            assert(a.content()[i] == b.content()[i]);
        }
    }
    assert(a.buffer@ =~= b.buffer@);
}

/// A well-formed handler's line is valid: the cursor lies in the line and
/// the line leaves the last byte of the buffer free.
pub proof fn lemma_wf_line_valid(h: CommandHandler)
    requires
        h.wf(),
    ensures
        h.line().valid(),
{
}

/// Every editing step keeps a line valid, at the capacity boundary too.
pub proof fn lemma_edits_keep_valid(line: LineState, ch: u8)
    requires
        line.valid(),
    ensures
        line.type_char(ch).valid(),
        line.erase_forward().valid(),
        line.erase_back().valid(),
        line.move_left().valid(),
        line.move_right().valid(),
        line.move_home().valid(),
        line.move_end().valid(),
        line.content.len() == COMMAND_BUFFER_SIZE - 1 ==> line.type_char(ch) == line,
{
}

} // verus!
