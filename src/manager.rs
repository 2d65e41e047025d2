use vstd::prelude::*;
use vstd::string::StringSliceAdditionalSpecFns;
use crate::screen::{blank_grid, Buffer, Screen, ScreenState, BUFFER_HEIGHT, BUFFER_WIDTH};

verus! {

/// Number of screen slots.
pub const MAX_SCREENS: usize = 2;

/// Owns the virtual screens and the mirror of the display device: the cell
/// grid shown and the value of the hardware cursor register. Screen ids run
/// from 1 to `MAX_SCREENS`; screen `id` lives in slot `id - 1`.
pub struct ScreenManager {
    pub screens: [Option<Screen>; MAX_SCREENS],
    pub active_screen_id: usize,
    pub physical_buffer: Buffer,
    pub hardware_cursor: u16,
}

/// The linear cell index of a cursor, each coordinate clamped into the grid.
pub open spec fn cursor_index(s: ScreenState) -> int {
    let row = if s.row < BUFFER_HEIGHT {
        s.row
    } else {
        BUFFER_HEIGHT - 1
    };
    let col = if s.col < BUFFER_WIDTH {
        s.col
    } else {
        BUFFER_WIDTH - 1
    };
    row * BUFFER_WIDTH + col
}

/// A fresh screen with the given id.
pub open spec fn fresh_state(id: usize) -> ScreenState {
    ScreenState { id, grid: blank_grid(), row: 0, col: 0 }
}

impl ScreenManager {
    /// Whether `id` names a slot at all.
    pub open spec fn valid_id(id: int) -> bool {
        1 <= id <= MAX_SCREENS
    }

    /// The screen that `id` names, if that slot is populated.
    pub open spec fn slot(&self, id: int) -> Option<ScreenState> {
        if Self::valid_id(id) {
            match self.screens@[id - 1] {
                Some(s) => Some(s@),
                None => None,
            }
        } else {
            None
        }
    }

    pub open spec fn populated(&self, id: int) -> bool {
        self.slot(id) is Some
    }

    pub open spec fn active(&self) -> ScreenState {
        self.slot(self.active_screen_id as int)->0
    }

    /// The device shows the active screen's grid and cursor.
    pub open spec fn in_sync(&self) -> bool {
        &&& self.physical_buffer@ == self.active().grid
        &&& self.hardware_cursor == cursor_index(self.active())
    }

    /// The active id names a populated slot, and every screen is well formed
    /// and carries the id of its slot.
    pub open spec fn wf(&self) -> bool {
        &&& Self::valid_id(self.active_screen_id as int)
        &&& self.screens@[self.active_screen_id - 1] is Some
        &&& forall|i: int|
            0 <= i < MAX_SCREENS ==> match #[trigger] self.screens@[i] {
                Some(s) => s.wf() && s.id == i + 1,
                None => true,
            }
    }

    /// `self` is `old` with the screen `id` replaced by `s`; the device and
    /// the active id are untouched.
    pub open spec fn with_screen(self, old: ScreenManager, id: int, s: ScreenState) -> bool {
        &&& self.wf()
        &&& self.active_screen_id == old.active_screen_id
        &&& self.physical_buffer == old.physical_buffer
        &&& self.hardware_cursor == old.hardware_cursor
        &&& self.slot(id) == Some(s)
        &&& forall|j: int| j != id ==> #[trigger] self.slot(j) == old.slot(j)
    }

    /// As `with_screen`, and when `id` is the active screen the device now
    /// shows it.
    pub open spec fn with_screen_shown(self, old: ScreenManager, id: int, s: ScreenState) -> bool {
        &&& self.wf()
        &&& self.active_screen_id == old.active_screen_id
        &&& self.slot(id) == Some(s)
        &&& forall|j: int| j != id ==> #[trigger] self.slot(j) == old.slot(j)
        &&& if old.active_screen_id == id {
            self.in_sync()
        } else {
            self.physical_buffer == old.physical_buffer && self.hardware_cursor
                == old.hardware_cursor
        }
    }

    /// `self` is `old` with the active screen's cursor moved to (row, col)
    /// and the hardware cursor following it; the grids and the device's
    /// cells are untouched.
    pub open spec fn with_active_cursor(self, old: ScreenManager, row: int, col: int) -> bool {
        &&& self.wf()
        &&& self.active_screen_id == old.active_screen_id
        &&& self.physical_buffer == old.physical_buffer
        &&& self.active() == (ScreenState { row, col, ..old.active() })
        &&& forall|j: int| j != old.active_screen_id ==> #[trigger] self.slot(j) == old.slot(j)
        &&& self.hardware_cursor == cursor_index(self.active())
    }

    /// Every slot populated with a fresh screen; screen 1 is active and shown.
    pub fn new() -> (m: ScreenManager)
        ensures
            m.wf(),
            m.in_sync(),
            m.active_screen_id == 1,
            forall|id: int| Self::valid_id(id) ==> m.slot(id) == Some(fresh_state(id as usize)),
    {
        ScreenManager::with_screens(MAX_SCREENS)
    }

    /// The first `count` slots populated with fresh screens, the others
    /// empty; screen 1 is active and shown.
    pub fn with_screens(count: usize) -> (m: ScreenManager)
        requires
            1 <= count <= MAX_SCREENS,
        ensures
            m.wf(),
            m.in_sync(),
            m.active_screen_id == 1,
            forall|id: int|
                Self::valid_id(id) ==> m.slot(id) == if id <= count {
                    Some(fresh_state(id as usize))
                } else {
                    None
                },
    {
        let second = if count >= 2 {
            Some(Screen::new(2))
        } else {
            None
        };
        let m = ScreenManager {
            screens: [Some(Screen::new(1)), second],
            active_screen_id: 1,
            physical_buffer: Buffer::new(),
            hardware_cursor: 0,
        };
        assert(m.slot(1) == Some(fresh_state(1)));
        m
    }

    pub fn get_screen(&self, screen_id: usize) -> (r: Option<&Screen>)
        ensures
            match r {
                Some(s) => self.slot(screen_id as int) == Some(s@) && self.screens@[screen_id
                    - 1] == Some(*s),
                None => !self.populated(screen_id as int),
            },
    {
        if screen_id >= 1 && screen_id <= MAX_SCREENS {
            self.screens[screen_id - 1].as_ref()
        } else {
            None
        }
    }

    pub fn get_screen_mut(&mut self, screen_id: usize) -> (r: Option<&mut Screen>)
        ensures
            match r {
                Some(s) => {
                    &&& old(self).populated(screen_id as int)
                    &&& old(self).screens@[screen_id - 1] == Some(*s)
                    &&& final(self).screens@ == old(self).screens@.update(
                        screen_id - 1,
                        Some(*final(s)),
                    )
                    &&& final(self).active_screen_id == old(self).active_screen_id
                    &&& final(self).physical_buffer == old(self).physical_buffer
                    &&& final(self).hardware_cursor == old(self).hardware_cursor
                },
                None => {
                    &&& !old(self).populated(screen_id as int)
                    &&& final(self).screens@ == old(self).screens@
                    &&& final(self).active_screen_id == old(self).active_screen_id
                    &&& final(self).physical_buffer == old(self).physical_buffer
                    &&& final(self).hardware_cursor == old(self).hardware_cursor
                },
            },
    {
        if screen_id >= 1 && screen_id <= MAX_SCREENS {
            match &mut self.screens[screen_id - 1] {
                Some(s) => Some(s),
                None => None,
            }
        } else {
            None
        }
    }

    pub fn get_active_screen(&self) -> (s: &Screen)
        requires
            self.wf(),
        ensures
            self.screens@[self.active_screen_id - 1] == Some(*s),
            s@ == self.active(),
    {
        self.screens[self.active_screen_id - 1].as_ref().unwrap()
    }

    pub fn get_active_screen_mut(&mut self) -> (s: &mut Screen)
        requires
            old(self).wf(),
        ensures
            old(self).screens@[old(self).active_screen_id - 1] == Some(*s),
            final(self).screens@ == old(self).screens@.update(
                old(self).active_screen_id - 1,
                Some(*final(s)),
            ),
            final(self).active_screen_id == old(self).active_screen_id,
            final(self).physical_buffer == old(self).physical_buffer,
            final(self).hardware_cursor == old(self).hardware_cursor,
    {
        match &mut self.screens[self.active_screen_id - 1] {
            Some(s) => s,
            None => vstd::pervasive::unreached(),
        }
    }

    pub fn get_active_screen_id(&self) -> (id: usize)
        ensures
            id == self.active_screen_id,
    {
        self.active_screen_id
    }

    /// Writes one byte at the cursor of screen `screen_id`, without showing
    /// it; false when the slot is empty.
    pub fn write_byte_to(&mut self, screen_id: usize, byte: u8) -> (r: bool)
        requires
            old(self).wf(),
        ensures
            r == old(self).populated(screen_id as int),
            r ==> final(self).with_screen(
                *old(self),
                screen_id as int,
                old(self).slot(screen_id as int)->0.write_byte(byte),
            ),
            !r ==> *final(self) == *old(self),
    {
        if !(screen_id >= 1 && screen_id <= MAX_SCREENS && self.screens[screen_id - 1].is_some()) {
            return false;
        }
        {
            match &mut self.screens[screen_id - 1] {
                Some(screen) => {
                    screen.write_byte(byte);
                    proof {
                        crate::screen::lemma_write_byte_wf(old(self).slot(screen_id as int)->0, byte);
                    }
                    true
                },
                None => false,
            }
        }
    }

    /// Puts a glyph into one cell of screen `screen_id` without moving its
    /// cursor or showing it; false when the slot is empty.
    pub fn write_byte_at(&mut self, screen_id: usize, row: usize, col: usize, byte: u8) -> (r:
        bool)
        requires
            old(self).wf(),
            row < BUFFER_HEIGHT,
            col < BUFFER_WIDTH,
        ensures
            r == old(self).populated(screen_id as int),
            r ==> final(self).with_screen(
                *old(self),
                screen_id as int,
                ScreenState {
                    grid: crate::screen::put_cell(
                        old(self).slot(screen_id as int)->0.grid,
                        row as int,
                        col as int,
                        crate::screen::glyph(byte),
                    ),
                    ..old(self).slot(screen_id as int)->0
                },
            ),
            !r ==> *final(self) == *old(self),
    {
        if !(screen_id >= 1 && screen_id <= MAX_SCREENS && self.screens[screen_id - 1].is_some()) {
            return false;
        }
        {
            match &mut self.screens[screen_id - 1] {
                Some(screen) => {
                    screen.write_byte_at(row, col, byte);
                    true
                },
                None => false,
            }
        }
    }

    /// Moves the cursor of screen `screen_id` without showing it; false when
    /// the slot is empty.
    pub fn place_cursor(&mut self, screen_id: usize, row: usize, col: usize) -> (r: bool)
        requires
            old(self).wf(),
            col <= BUFFER_WIDTH,
        ensures
            r == old(self).populated(screen_id as int),
            r ==> final(self).with_screen(
                *old(self),
                screen_id as int,
                ScreenState {
                    row: row as int,
                    col: col as int,
                    ..old(self).slot(screen_id as int)->0
                },
            ),
            !r ==> *final(self) == *old(self),
    {
        if !(screen_id >= 1 && screen_id <= MAX_SCREENS && self.screens[screen_id - 1].is_some()) {
            return false;
        }
        {
            match &mut self.screens[screen_id - 1] {
                Some(screen) => {
                    screen.set_cursor_position(row, col);
                    true
                },
                None => false,
            }
        }
    }

    /// Shows the active screen when it is `screen_id`.
    pub fn refresh_if_active(&mut self, screen_id: usize)
        requires
            old(self).wf(),
        ensures
            final(self).wf(),
            final(self).screens == old(self).screens,
            final(self).active_screen_id == old(self).active_screen_id,
            forall|j: int| #[trigger] final(self).slot(j) == old(self).slot(j),
            old(self).active_screen_id == screen_id ==> final(self).in_sync(),
            old(self).active_screen_id != screen_id ==> *final(self) == *old(self),
    {
        if self.active_screen_id == screen_id {
            self.flush_to_physical();
            self.update_cursor();
        }
    }

    /// Blanks screen `screen_id` and moves its cursor to the top left,
    /// without showing it; false when the slot is empty.
    pub fn clear_screen(&mut self, screen_id: usize) -> (r: bool)
        requires
            old(self).wf(),
        ensures
            r == old(self).populated(screen_id as int),
            r ==> final(self).with_screen(
                *old(self),
                screen_id as int,
                old(self).slot(screen_id as int)->0.cleared(),
            ),
            !r ==> *final(self) == *old(self),
    {
        if !(screen_id >= 1 && screen_id <= MAX_SCREENS && self.screens[screen_id - 1].is_some()) {
            return false;
        }
        {
            match &mut self.screens[screen_id - 1] {
                Some(screen) => {
                    screen.clear();
                    true
                },
                None => false,
            }
        }
    }

    /// Blanks the active screen and moves its cursor to the top left,
    /// without showing it.
    pub fn clear_active_screen(&mut self)
        requires
            old(self).wf(),
        ensures
            final(self).with_screen(
                *old(self),
                old(self).active_screen_id as int,
                old(self).active().cleared(),
            ),
    {
        let id = self.active_screen_id;
        self.clear_screen(id);
    }

    /// Writes `data` to screen `screen_id`, and shows it when that screen is
    /// active; false, with nothing changed, when the slot is empty.
    pub fn write_to_screen(&mut self, screen_id: usize, data: &str) -> (r: bool)
        requires
            old(self).wf(),
        ensures
            r == old(self).populated(screen_id as int),
            r ==> final(self).with_screen_shown(
                *old(self),
                screen_id as int,
                old(self).slot(screen_id as int)->0.write_bytes(data.spec_bytes()),
            ),
            !r ==> *final(self) == *old(self),
    {
        let bytes = data.as_bytes();
        self.write_slice_to_screen(screen_id, bytes)
    }

    /// Writes `bytes` to screen `screen_id`, and shows it when that screen is
    /// active; false, with nothing changed, when the slot is empty.
    pub fn write_slice_to_screen(&mut self, screen_id: usize, bytes: &[u8]) -> (r: bool)
        requires
            old(self).wf(),
        ensures
            r == old(self).populated(screen_id as int),
            r ==> final(self).with_screen_shown(
                *old(self),
                screen_id as int,
                old(self).slot(screen_id as int)->0.write_bytes(bytes@),
            ),
            !r ==> *final(self) == *old(self),
    {
        if !(screen_id >= 1 && screen_id <= MAX_SCREENS && self.screens[screen_id - 1].is_some()) {
            return false;
        }
        let ghost s0 = old(self).slot(screen_id as int)->0;
        let mut i: usize = 0;
        while i < bytes.len()
            invariant
                i <= bytes@.len(),
                old(self).wf(),
                old(self).populated(screen_id as int),
                s0 == old(self).slot(screen_id as int)->0,
                self.with_screen(*old(self), screen_id as int, s0.write_bytes(bytes@.take(i as int))),
            decreases bytes@.len() - i,
        {
            assert(bytes@.take(i + 1).drop_last() =~= bytes@.take(i as int));
            self.write_byte_to(screen_id, bytes[i]);
            i = i + 1;
        }
        assert(bytes@.take(i as int) =~= bytes@);
        self.refresh_if_active(screen_id);
        true
    }

    /// Writes `data` to the active screen and shows it.
    pub fn write_to_active_screen(&mut self, data: &str)
        requires
            old(self).wf(),
        ensures
            final(self).with_screen_shown(
                *old(self),
                old(self).active_screen_id as int,
                old(self).active().write_bytes(data.spec_bytes()),
            ),
            final(self).in_sync(),
    {
        let id = self.active_screen_id;
        self.write_to_screen(id, data);
    }

    /// Copies the active screen's grid onto the device.
    pub fn flush_to_physical(&mut self)
        requires
            old(self).wf(),
        ensures
            final(self).wf(),
            final(self).screens == old(self).screens,
            final(self).active_screen_id == old(self).active_screen_id,
            final(self).hardware_cursor == old(self).hardware_cursor,
            final(self).physical_buffer@ == old(self).active().grid,
    {
        let id = self.active_screen_id;
        if let Some(active) = &self.screens[id - 1] {
            self.physical_buffer.chars = active.buffer.chars;
        }
        assert(self.physical_buffer@ =~= old(self).active().grid);
    }

    /// Sets the hardware cursor register to the active screen's cursor,
    /// clamped into the grid.
    pub fn update_cursor(&mut self)
        requires
            old(self).wf(),
        ensures
            *final(self) == (ScreenManager {
                hardware_cursor: cursor_index(old(self).active()) as u16,
                ..*old(self)
            }),
            final(self).hardware_cursor == cursor_index(old(self).active()),
            forall|j: int| #[trigger] final(self).slot(j) == old(self).slot(j),
    {
        let active = self.get_active_screen();
        let row = if active.row_position < BUFFER_HEIGHT {
            active.row_position
        } else {
            BUFFER_HEIGHT - 1
        };
        let col = if active.column_position < BUFFER_WIDTH {
            active.column_position
        } else {
            BUFFER_WIDTH - 1
        };
        self.hardware_cursor = (row * BUFFER_WIDTH + col) as u16;
    }

    /// The active screen's cursor as (row, column).
    pub fn get_cursor_position(&self) -> (p: (usize, usize))
        requires
            self.wf(),
        ensures
            p.0 == self.active().row,
            p.1 == self.active().col,
    {
        let active = self.get_active_screen();
        (active.row_position, active.column_position)
    }

    /// Moves the active screen's cursor and the hardware cursor with it.
    pub fn set_cursor_position(&mut self, row: usize, col: usize)
        requires
            old(self).wf(),
            col <= BUFFER_WIDTH,
        ensures
            final(self).with_active_cursor(*old(self), row as int, col as int),
    {
        let id = self.active_screen_id;
        self.place_cursor(id, row, col);
        self.update_cursor();
    }

    /// Makes screen `screen_id` the active one and shows it. When that slot
    /// is empty or out of range, returns false and changes nothing.
    pub fn switch_screen(&mut self, screen_id: usize) -> (r: bool)
        requires
            old(self).wf(),
        ensures
            r == old(self).populated(screen_id as int),
            r ==> final(self).wf() && final(self).screens == old(self).screens
                && final(self).active_screen_id == screen_id && final(self).in_sync(),
            !r ==> *final(self) == *old(self),
    {
        if screen_id >= 1 && screen_id <= MAX_SCREENS && self.screens[screen_id - 1].is_some() {
            self.active_screen_id = screen_id;
            self.flush_to_physical();
            self.update_cursor();
            true
        } else {
            false
        }
    }

    /// Populates the lowest empty slot with a fresh screen and returns its
    /// id; None when every slot is populated.
    pub fn create_screen(&mut self) -> (r: Option<usize>)
        requires
            old(self).wf(),
        ensures
            r is None <==> (forall|id: int| Self::valid_id(id) ==> old(self).populated(id)),
            r is None ==> *final(self) == *old(self),
            r matches Some(id) ==> {
                &&& !old(self).populated(id as int)
                &&& forall|j: int| 1 <= j < id ==> old(self).populated(j)
                &&& final(self).with_screen(*old(self), id as int, fresh_state(id))
            },
    {
        let mut i: usize = 0;
        while i < MAX_SCREENS
            invariant
                i <= MAX_SCREENS,
                *self == *old(self),
                old(self).wf(),
                forall|j: int| 1 <= j <= i ==> old(self).populated(j),
            decreases MAX_SCREENS - i,
        {
            if self.screens[i].is_none() {
                assert(!old(self).populated(i + 1));
                let screen = Screen::new(i + 1);
                self.screens[i] = Some(screen);
                assert(self.slot(i + 1) == Some(fresh_state((i + 1) as usize)));
                assert(forall|j: int| j != i + 1 ==> #[trigger] self.slot(j) == old(self).slot(j));
                return Some(i + 1);
            }
            i = i + 1;
        }
        None
    }

    /// The cells that the device shows.
    pub fn physical_buffer(&self) -> (b: &Buffer)
        ensures
            *b == self.physical_buffer,
    {
        &self.physical_buffer
    }

    /// The value of the hardware cursor register.
    pub fn hardware_cursor(&self) -> (c: u16)
        ensures
            c == self.hardware_cursor,
    {
        self.hardware_cursor
    }
}

/// Two replacements of one screen, each shown when active, amount to the
/// second one shown.
pub proof fn lemma_shown_chain(
    m0: ScreenManager,
    m1: ScreenManager,
    m2: ScreenManager,
    id: int,
    s1: ScreenState,
    s2: ScreenState,
)
    requires
        m1.with_screen_shown(m0, id, s1),
        m2.with_screen_shown(m1, id, s2),
    ensures
        m2.with_screen_shown(m0, id, s2),
{
    assert forall|j: int| j != id implies #[trigger] m2.slot(j) == m0.slot(j) by {
        assert(m2.slot(j) == m1.slot(j));
        assert(m1.slot(j) == m0.slot(j));
    }
}

/// Two replacements of one screen amount to the second one.
pub proof fn lemma_with_screen_chain(
    m0: ScreenManager,
    m1: ScreenManager,
    m2: ScreenManager,
    id: int,
    s1: ScreenState,
    s2: ScreenState,
)
    requires
        m1.with_screen(m0, id, s1),
        m2.with_screen(m1, id, s2),
    ensures
        m2.with_screen(m0, id, s2),
{
    assert forall|j: int| j != id implies #[trigger] m2.slot(j) == m0.slot(j) by {
        assert(m2.slot(j) == m1.slot(j));
        assert(m1.slot(j) == m0.slot(j));
    }
}

/// A replaced screen followed by `refresh_if_active` on it is the
/// replacement shown.
pub proof fn lemma_refreshed(m0: ScreenManager, m1: ScreenManager, m2: ScreenManager, id: int, s: ScreenState)
    requires
        m1.with_screen(m0, id, s),
        m2.wf(),
        m2.active_screen_id == m1.active_screen_id,
        forall|j: int| #[trigger] m2.slot(j) == m1.slot(j),
        m1.active_screen_id == id ==> m2.in_sync(),
        m1.active_screen_id != id ==> m2 == m1,
    ensures
        m2.with_screen_shown(m0, id, s),
{
    assert(m2.slot(id) == m1.slot(id));
}

} // verus!
