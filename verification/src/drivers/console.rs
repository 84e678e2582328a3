//! The console: a character device that writes to the text screen.

use vstd::prelude::*;
use crate::arch::console::{
    clear_screen, scroll_up, spec_cell, spec_scroll_up, write_at, VgaText, DEFAULT_ATTR, HEIGHT,
    WIDTH, CELLS, blank_screen, spec_lift_cursor, spec_block_over,
};
use crate::drivers::{CharDevice, CharDeviceId, Driver, DriverError, DriverKind};

verus! {

/// Where the next byte goes, and in which colours.
#[derive(Copy, Clone, Debug, PartialEq, Eq, Structural)]
pub struct ConsoleState {
    pub row: usize,
    pub col: usize,
    pub attr: u8,
}

/// The console: its writing position and the screen it writes to.
pub struct Console {
    pub state: ConsoleState,
    pub screen: VgaText,
}

/// What the console shows and where it writes next.
pub struct ConsoleView {
    pub row: usize,
    pub col: usize,
    pub cells: Seq<u16>,
}

impl View for Console {
    type V = ConsoleView;

    open spec fn view(&self) -> ConsoleView {
        ConsoleView { row: self.state.row, col: self.state.col, cells: self.screen.cells@ }
    }
}

/// The console after a line break: the next row, or the same last row with
/// the screen scrolled up by one.
pub open spec fn spec_new_line(v: ConsoleView) -> ConsoleView {
    if v.row + 1 >= HEIGHT {
        ConsoleView { row: (HEIGHT - 1) as usize, col: 0, cells: spec_scroll_up(v.cells) }
    } else {
        ConsoleView { row: (v.row + 1) as usize, col: 0, cells: v.cells }
    }
}

/// The console after `byte` was shown: at the writing position, or at the
/// start of the next line where the line is full.
pub open spec fn spec_put_char(v: ConsoleView, byte: u8, attr: u8) -> ConsoleView {
    let at = if v.col >= WIDTH { spec_new_line(v) } else { v };
    ConsoleView {
        row: at.row,
        col: (at.col + 1) as usize,
        cells: at.cells.update(at.row * WIDTH + at.col, spec_cell(byte, attr)),
    }
}

/// The console after one byte was written to it. A line feed breaks the
/// line, a carriage return goes back to its start, a tab goes to the next
/// multiple of eight columns or breaks the line; any other byte is shown.
pub open spec fn spec_write_byte(v: ConsoleView, byte: u8, attr: u8) -> ConsoleView {
    if byte == 0x0A {
        spec_new_line(v)
    } else if byte == 0x0D {
        ConsoleView { col: 0, ..v }
    } else if byte == 0x09 {
        let next_tab = (v.col / 8 + 1) * 8;
        if next_tab >= WIDTH {
            spec_new_line(v)
        } else {
            ConsoleView { col: next_tab as usize, ..v }
        }
    } else {
        spec_put_char(v, byte, attr)
    }
}

/// The console after the bytes were written to it, one after the other.
pub open spec fn spec_write(v: ConsoleView, bytes: Seq<u8>, attr: u8) -> ConsoleView
    decreases bytes.len(),
{
    if bytes.len() == 0 {
        v
    } else {
        spec_write_byte(spec_write(v, bytes.drop_last(), attr), bytes.last(), attr)
    }
}

impl Console {
    /// The writing position lies on the screen, or just past the end of a line.
    pub open spec fn wf(&self) -> bool {
        &&& self.screen.wf()
        &&& self.state.row < HEIGHT
        &&& self.state.col <= WIDTH
    }

    /// The console before anything was written.
    pub fn instance() -> (console: Console)
        ensures
            console.wf(),
            console.state == (ConsoleState { row: 0, col: 0, attr: DEFAULT_ATTR }),
            console.screen.pending@.len() == 0,
    {
        Console { state: ConsoleState { row: 0, col: 0, attr: DEFAULT_ATTR }, screen: VgaText::new() }
    }
}

impl Console {
    /// Whether the console can start: its screen has all its cells, and the
    /// cursor stands on one of them.
    pub open spec fn spec_starts(&self) -> bool {
        self.screen.cells@.len() == CELLS && self.screen.cursor.position < CELLS
    }
}

impl Driver for Console {
    fn name(&self) -> (name: &'static str)
        ensures
            name@ == "console"@,
    {
        "console"
    }

    fn kind(&self) -> (kind: DriverKind)
        ensures
            kind == DriverKind::Char,
    {
        DriverKind::Char
    }

    /// Clears the screen and starts writing at its top.
    fn init(&mut self) -> (res: Result<(), DriverError>)
        ensures
            res is Ok <==> old(self).spec_starts(),
            res matches Err(e) ==> e == DriverError::InitFailed,
            res is Ok || *final(self) == *old(self),
            old(self).wf() ==> res is Ok && final(self).wf() && final(self).state.row == 0 && final(self).state.col == 0 && final(self).state.attr == old(self).state.attr,
    {
        if self.screen.cells.len() != CELLS || self.screen.cursor.position >= CELLS {
            return Err(DriverError::InitFailed);
        }
        clear_screen(&mut self.screen);
        self.state.row = 0;
        self.state.col = 0;
        Ok(())
    }

    fn shutdown(&mut self)
        ensures
            *final(self) == *old(self),
    {
    }
}

impl CharDevice for Console {
    /// The console has nothing to read.
    fn read(&mut self, buf: &mut [u8]) -> (res: Result<usize, DriverError>)
        ensures
            res == Ok::<usize, DriverError>(0),
            *final(self) == *old(self),
            final(buf)@ == old(buf)@,
    {
        Ok(0)
    }

    /// Writes the bytes to the screen.
    fn write(&mut self, buf: &[u8]) -> (res: Result<usize, DriverError>)
        ensures
            old(self).wf() ==> res == Ok::<usize, DriverError>(buf@.len() as usize) && final(self).wf() && final(self)@ == spec_write(old(self)@, buf@, old(self).state.attr) && final(self).state.attr == old(self).state.attr && final(self).screen.cursor == old(self).screen.cursor && final(self).screen.pending == old(self).screen.pending,
            !old(self).wf() ==> res is Err && *final(self) == *old(self),
    {
        if self.screen.cells.len() != CELLS || self.screen.cursor.position >= CELLS
            || self.state.row >= HEIGHT || self.state.col > WIDTH {
            return Err(DriverError::IoError);
        }
        let mut i: usize = 0;
        while i < buf.len()
            invariant
                i <= buf@.len(),
                self.wf(),
                self.state.attr == old(self).state.attr,
                self.screen.cursor == old(self).screen.cursor,
                self.screen.pending == old(self).screen.pending,
                self@ == spec_write(old(self)@, buf@.subrange(0, i as int), old(self).state.attr),
            decreases buf@.len() - i,
        {
            assert(buf@.subrange(0, i + 1).drop_last() =~= buf@.subrange(0, i as int));
            let byte = buf[i];
            if byte == 0x0A {
                new_line(self);
            } else if byte == 0x0D {
                self.state.col = 0;
            } else if byte == 0x09 {
                let next_tab = (self.state.col / 8 + 1) * 8;
                if next_tab >= WIDTH {
                    new_line(self);
                } else {
                    self.state.col = next_tab;
                }
            } else {
                put_char(self, byte);
            }
            i += 1;
        }
        assert(buf@.subrange(0, buf@.len() as int) =~= buf@);
        Ok(buf.len())
    }
}

/// Shows `byte` at the writing position and moves the position on.
pub fn put_char(console: &mut Console, byte: u8)
    requires
        old(console).wf(),
    ensures
        final(console).wf(),
        final(console)@ == spec_put_char(old(console)@, byte, old(console).state.attr),
        final(console).state.attr == old(console).state.attr,
        final(console).screen.cursor == old(console).screen.cursor,
        final(console).screen.pending == old(console).screen.pending,
{
    if console.state.col >= WIDTH {
        new_line(console);
    }
    write_at(&mut console.screen, console.state.row, console.state.col, byte, console.state.attr);
    console.state.col += 1;
}

/// Breaks the line; on the last row the screen scrolls up instead.
pub fn new_line(console: &mut Console)
    requires
        old(console).wf(),
    ensures
        final(console).wf(),
        final(console)@ == spec_new_line(old(console)@),
        final(console).state.col == 0,
        final(console).state.attr == old(console).state.attr,
        final(console).screen.cursor == old(console).screen.cursor,
        final(console).screen.pending == old(console).screen.pending,
{
    console.state.col = 0;
    console.state.row += 1;
    if console.state.row >= HEIGHT {
        scroll_up(&mut console.screen);
        console.state.row = HEIGHT - 1;
    }
}

/// The console, as a character device.
pub fn driver() -> (id: CharDeviceId)
    ensures
        id == CharDeviceId::Console,
{
    CharDeviceId::Console
}

/// Writes the bytes to the console.
pub fn write_bytes(console: &mut Console, buf: &[u8]) -> (res: Result<usize, DriverError>)
    ensures
        old(console).wf() ==> res == Ok::<usize, DriverError>(buf@.len() as usize) && final(console).wf() && final(console)@ == spec_write(old(console)@, buf@, old(console).state.attr),
        !old(console).wf() ==> res is Err && *final(console) == *old(console),
{
    console.write(buf)
}

/// Clears the screen and starts writing at its top.
pub fn clear(console: &mut Console)
    requires
        old(console).wf(),
    ensures
        final(console).wf(),
        final(console).state == (ConsoleState { row: 0, col: 0, attr: old(console).state.attr }),
        ({
            let lifted = spec_lift_cursor(blank_screen(), old(console).screen.cursor);
            final(console).screen.cells@ == lifted.update(0, spec_block_over(lifted[0]))
        }),
{
    clear_screen(&mut console.screen);
    console.state.row = 0;
    console.state.col = 0;
}

} // verus!
