//! The VGA text screen: 25 rows of 80 cells, and a block cursor drawn into them.

use vstd::prelude::*;
use crate::arch::io::{outb, PortWrite};

verus! {

pub const WIDTH: usize = 80;

pub const HEIGHT: usize = 25;

/// Cells of the screen.
pub const CELLS: usize = 2000;

/// White on black.
pub const DEFAULT_ATTR: u8 = 0x0F;

pub const CRTC_ADDRESS: u16 = 0x3D4;

pub const CRTC_DATA: u16 = 0x3D5;

/// The glyph of the block cursor.
pub const BLOCK_GLYPH: u16 = 0xDB;

/// The cell that shows `byte` with the attribute `attr`.
pub open spec fn spec_cell(byte: u8, attr: u8) -> u16 {
    ((attr as u16) << 8) | byte as u16
}

/// A blank cell.
pub open spec fn blank_cell() -> u16 {
    spec_cell(0x20, DEFAULT_ATTR)
}

/// The cursor as it is drawn: the cell it covers, what it put there, and
/// what was there before.
#[derive(Copy, Clone, Debug, PartialEq, Eq, Structural)]
pub struct CursorState {
    pub saved: u16,
    pub block: u16,
    pub position: usize,
    pub active: bool,
}

impl CursorState {
    pub fn new() -> (cursor: CursorState)
        ensures
            cursor == (CursorState { saved: 0, block: 0, position: 0, active: false }),
    {
        CursorState { saved: 0, block: 0, position: 0, active: false }
    }
}

/// The text screen, and the port writes that are waiting to be sent.
pub struct VgaText {
    pub cells: Vec<u16>,
    pub cursor: CursorState,
    pub pending: Vec<PortWrite>,
}

/// The cells after the cursor was taken off the screen: the cell under an
/// active cursor gets back what it showed, unless something else was
/// written over the cursor meanwhile.
pub open spec fn spec_lift_cursor(cells: Seq<u16>, cursor: CursorState) -> Seq<u16> {
    if cursor.active && cells[cursor.position as int] == cursor.block {
        cells.update(cursor.position as int, cursor.saved)
    } else {
        cells
    }
}

/// The cell index of `(row, col)`, held inside the screen.
pub open spec fn spec_cursor_position(row: usize, col: usize) -> int {
    if row * WIDTH + col < CELLS - 1 {
        row * WIDTH + col
    } else {
        CELLS - 1
    }
}

/// The block that covers `cell`: the block glyph in the cell's colours.
pub open spec fn spec_block_over(cell: u16) -> u16 {
    BLOCK_GLYPH | ((((cell >> 8) & 0xFF) as u8 as u16) << 8)
}

/// The port writes that move the hardware cursor to cell `position`.
pub open spec fn spec_cursor_writes(position: int) -> Seq<PortWrite> {
    seq![
        PortWrite { port: CRTC_ADDRESS, value: 0x0F },
        PortWrite { port: CRTC_DATA, value: ((position as u16) & 0xFF) as u8 },
        PortWrite { port: CRTC_ADDRESS, value: 0x0E },
        PortWrite { port: CRTC_DATA, value: ((position as u16) >> 8) as u8 },
    ]
}

/// The cells with row `row` blank.
pub open spec fn spec_clear_row(cells: Seq<u16>, row: int) -> Seq<u16> {
    Seq::new(
        cells.len(),
        |i: int| if row * WIDTH <= i < (row + 1) * WIDTH { blank_cell() } else { cells[i] },
    )
}

/// The cells one row up, with a blank last row.
pub open spec fn spec_scroll_up(cells: Seq<u16>) -> Seq<u16> {
    Seq::new(
        cells.len(),
        |i: int| if i < WIDTH * (HEIGHT - 1) { cells[i + WIDTH] } else { blank_cell() },
    )
}

impl VgaText {
    /// The screen has its 2000 cells and the cursor lies on one of them.
    pub open spec fn wf(&self) -> bool {
        &&& self.cells@.len() == CELLS
        &&& self.cursor.position < CELLS
    }

    /// A screen of empty cells, before anything was drawn.
    pub fn new() -> (vga: VgaText)
        ensures
            vga.wf(),
            vga.cursor == (CursorState { saved: 0, block: 0, position: 0, active: false }),
            vga.pending@.len() == 0,
            forall|i: int| 0 <= i < CELLS ==> vga.cells@[i] == 0,
    {
        VgaText { cells: vec![0u16; CELLS], cursor: CursorState::new(), pending: Vec::new() }
    }

    /// Hands out the port writes that are waiting, in order.
    pub fn take_pending(&mut self) -> (writes: Vec<PortWrite>)
        ensures
            writes@ == old(self).pending@,
            final(self).pending@.len() == 0,
            final(self).cells == old(self).cells,
            final(self).cursor == old(self).cursor,
    {
        let mut writes: Vec<PortWrite> = Vec::new();
        core::mem::swap(&mut writes, &mut self.pending);
        writes
    }
}

/// Shows `byte` with `attr` at `(row, col)`.
pub fn write_at(vga: &mut VgaText, row: usize, col: usize, byte: u8, attr: u8)
    requires
        old(vga).wf(),
        row < HEIGHT,
        col < WIDTH,
    ensures
        final(vga).wf(),
        final(vga).cells@ == old(vga).cells@.update(row * WIDTH + col, spec_cell(byte, attr)),
        final(vga).cursor == old(vga).cursor,
        final(vga).pending == old(vga).pending,
{
    let offset = row * WIDTH + col;
    let value = ((attr as u16) << 8) | byte as u16;
    vga.cells[offset] = value;
}

/// Blanks row `row`.
pub fn clear_row(vga: &mut VgaText, row: usize)
    requires
        old(vga).wf(),
        row < HEIGHT,
    ensures
        final(vga).wf(),
        final(vga).cells@ == spec_clear_row(old(vga).cells@, row as int),
        final(vga).cursor == old(vga).cursor,
        final(vga).pending == old(vga).pending,
{
    let mut col: usize = 0;
    while col < WIDTH
        invariant
            col <= WIDTH,
            row < HEIGHT,
            vga.wf(),
            vga.cursor == old(vga).cursor,
            vga.pending == old(vga).pending,
            forall|i: int|
                0 <= i < CELLS ==> vga.cells@[i] == (if row * WIDTH <= i < row * WIDTH + col {
                    blank_cell()
                } else {
                    old(vga).cells@[i]
                }),
        decreases WIDTH - col,
    {
        write_at(vga, row, col, 0x20, DEFAULT_ATTR);
        col += 1;
    }
    assert(vga.cells@ =~= spec_clear_row(old(vga).cells@, row as int));
}

/// Moves every row up by one and blanks the last.
pub fn scroll_up(vga: &mut VgaText)
    requires
        old(vga).wf(),
    ensures
        final(vga).wf(),
        final(vga).cells@ == spec_scroll_up(old(vga).cells@),
        final(vga).cursor == old(vga).cursor,
        final(vga).pending == old(vga).pending,
{
    let mut i: usize = 0;
    while i < WIDTH * (HEIGHT - 1)
        invariant
            i <= WIDTH * (HEIGHT - 1),
            vga.wf(),
            vga.cursor == old(vga).cursor,
            vga.pending == old(vga).pending,
            forall|j: int| 0 <= j < i ==> vga.cells@[j] == old(vga).cells@[j + WIDTH],
            forall|j: int| i <= j < CELLS ==> vga.cells@[j] == old(vga).cells@[j],
        decreases WIDTH * (HEIGHT - 1) - i,
    {
        let moved = vga.cells[i + WIDTH];
        vga.cells[i] = moved;
        i += 1;
    }
    clear_row(vga, HEIGHT - 1);
    assert(vga.cells@ =~= spec_scroll_up(old(vga).cells@));
}

/// Takes the cursor off the screen and forgets it.
pub fn reset_cursor_state(vga: &mut VgaText)
    requires
        old(vga).wf(),
    ensures
        final(vga).wf(),
        final(vga).cells@ == spec_lift_cursor(old(vga).cells@, old(vga).cursor),
        final(vga).cursor == (CursorState {
            saved: blank_cell(),
            block: blank_cell(),
            position: 0,
            active: false,
        }),
        final(vga).pending == old(vga).pending,
{
    if vga.cursor.active {
        let current = vga.cells[vga.cursor.position];
        if current == vga.cursor.block {
            let saved = vga.cursor.saved;
            let position = vga.cursor.position;
            vga.cells[position] = saved;
        } else {
            vga.cursor.saved = current;
        }
    }
    vga.cursor.active = false;
    vga.cursor.position = 0;
    vga.cursor.saved = ((DEFAULT_ATTR as u16) << 8) | 0x20u16;
    vga.cursor.block = vga.cursor.saved;
}

/// Draws the cursor at `(row, col)`: the old cursor is taken off, and the
/// cell under the new one shows a block in its own colours.
pub fn update_cursor_visual(vga: &mut VgaText, row: usize, col: usize)
    requires
        old(vga).wf(),
        row * WIDTH + col <= usize::MAX,
    ensures
        final(vga).wf(),
        ({
            let lifted = spec_lift_cursor(old(vga).cells@, old(vga).cursor);
            let position = spec_cursor_position(row, col);
            &&& final(vga).cursor == (CursorState {
                saved: lifted[position],
                block: spec_block_over(lifted[position]),
                position: position as usize,
                active: true,
            })
            &&& final(vga).cells@ == lifted.update(position, spec_block_over(lifted[position]))
        }),
        final(vga).pending == old(vga).pending,
{
    if vga.cursor.active {
        let current = vga.cells[vga.cursor.position];
        if current == vga.cursor.block {
            let saved = vga.cursor.saved;
            let position = vga.cursor.position;
            vga.cells[position] = saved;
        } else {
            vga.cursor.saved = current;
        }
        vga.cursor.active = false;
    }
    let wanted = row * WIDTH + col;
    let position = if wanted < CELLS - 1 { wanted } else { CELLS - 1 };
    let cell = vga.cells[position];
    vga.cursor.saved = cell;
    vga.cursor.position = position;
    vga.cursor.active = true;
    let attr = ((cell >> 8) & 0xFF) as u8;
    let block = BLOCK_GLYPH | ((attr as u16) << 8);
    vga.cursor.block = block;
    vga.cells[position] = block;
}

/// Moves the cursor to `(row, col)`, on the screen and in the hardware.
pub fn set_cursor(vga: &mut VgaText, row: usize, col: usize)
    requires
        old(vga).wf(),
        row * WIDTH + col <= usize::MAX,
    ensures
        final(vga).wf(),
        ({
            let lifted = spec_lift_cursor(old(vga).cells@, old(vga).cursor);
            let position = spec_cursor_position(row, col);
            &&& final(vga).cursor == (CursorState {
                saved: lifted[position],
                block: spec_block_over(lifted[position]),
                position: position as usize,
                active: true,
            })
            &&& final(vga).cells@ == lifted.update(position, spec_block_over(lifted[position]))
            &&& final(vga).pending@ == old(vga).pending@ + spec_cursor_writes(position)
        }),
{
    let wanted = row * WIDTH + col;
    let pos = (if wanted < CELLS - 1 { wanted } else { CELLS - 1 }) as u16;
    update_cursor_visual(vga, row, col);
    vga.pending.push(outb(CRTC_ADDRESS, 0x0F));
    vga.pending.push(outb(CRTC_DATA, (pos & 0xFF) as u8));
    vga.pending.push(outb(CRTC_ADDRESS, 0x0E));
    vga.pending.push(outb(CRTC_DATA, (pos >> 8) as u8));
    assert(vga.pending@ =~= old(vga).pending@ + spec_cursor_writes(pos as int));
}

/// The port writes that give the cursor the scan lines `start` to `end`,
/// given what the two shape registers read before.
pub open spec fn spec_cursor_shape_writes(start: u8, end: u8, read_start: u8, read_end: u8) -> Seq<
    PortWrite,
> {
    seq![
        PortWrite { port: CRTC_ADDRESS, value: 0x0A },
        PortWrite { port: CRTC_DATA, value: (read_start & 0xC0) | 0x20 | (start & 0x1F) },
        PortWrite { port: CRTC_ADDRESS, value: 0x0B },
        PortWrite { port: CRTC_DATA, value: (read_end & 0xE0) | (end & 0x1F) },
    ]
}

/// Sets the shape of the hardware cursor and switches its blinking off.
/// `read_start` and `read_end` are what the two shape registers hold.
pub fn set_cursor_shape(vga: &mut VgaText, start: u8, end: u8, read_start: u8, read_end: u8)
    ensures
        final(vga).cells == old(vga).cells,
        final(vga).cursor == old(vga).cursor,
        final(vga).pending@ == old(vga).pending@ + spec_cursor_shape_writes(
            start,
            end,
            read_start,
            read_end,
        ),
{
    let low_start = start & 0x1F;
    let low_end = end & 0x1F;
    vga.pending.push(outb(CRTC_ADDRESS, 0x0A));
    vga.pending.push(outb(CRTC_DATA, (read_start & 0xC0) | 0x20 | low_start));
    vga.pending.push(outb(CRTC_ADDRESS, 0x0B));
    vga.pending.push(outb(CRTC_DATA, (read_end & 0xE0) | low_end));
    assert(vga.pending@ =~= old(vga).pending@ + spec_cursor_shape_writes(
        start,
        end,
        read_start,
        read_end,
    ));
}

/// A screen of blank cells.
pub open spec fn blank_screen() -> Seq<u16> {
    Seq::new(CELLS as nat, |i: int| blank_cell())
}

/// Blanks the whole screen and puts the cursor in its first cell.
pub fn clear_screen(vga: &mut VgaText)
    requires
        old(vga).wf(),
    ensures
        final(vga).wf(),
        ({
            let lifted = spec_lift_cursor(blank_screen(), old(vga).cursor);
            &&& final(vga).cells@ == lifted.update(0, spec_block_over(lifted[0]))
            &&& final(vga).cursor == (CursorState {
                saved: lifted[0],
                block: spec_block_over(lifted[0]),
                position: 0,
                active: true,
            })
        }),
        final(vga).pending@ == old(vga).pending@ + spec_cursor_writes(0),
{
    let mut row: usize = 0;
    while row < HEIGHT
        invariant
            row <= HEIGHT,
            vga.wf(),
            vga.cursor == old(vga).cursor,
            vga.pending == old(vga).pending,
            forall|i: int| 0 <= i < row * WIDTH ==> vga.cells@[i] == blank_cell(),
        decreases HEIGHT - row,
    {
        let ghost before = vga.cells@;
        clear_row(vga, row);
        assert forall|i: int| 0 <= i < (row + 1) * WIDTH implies vga.cells@[i] == blank_cell() by {
            if i < row * WIDTH {
                assert(vga.cells@[i] == before[i]);
            }
        }
        row += 1;
    }
    assert(vga.cells@ =~= blank_screen());
    reset_cursor_state(vga);
    let ghost cleared = vga.cells@;
    set_cursor(vga, 0, 0);
    proof {
        assert(spec_lift_cursor(cleared, vga_cursor_after_reset()) == cleared);
    }
}

/// The cursor once it was forgotten.
pub open spec fn vga_cursor_after_reset() -> CursorState {
    CursorState { saved: blank_cell(), block: blank_cell(), position: 0, active: false }
}

/// Gives the cursor its full-block shape and puts it in the first cell.
pub fn init(vga: &mut VgaText, read_start: u8, read_end: u8)
    requires
        old(vga).wf(),
    ensures
        final(vga).wf(),
        final(vga).pending@ == old(vga).pending@ + spec_cursor_shape_writes(
            0,
            15,
            read_start,
            read_end,
        ) + spec_cursor_writes(0),
        final(vga).cursor.position == 0,
        final(vga).cursor.active,
{
    set_cursor_shape(vga, 0, 15, read_start, read_end);
    set_cursor(vga, 0, 0);
}

} // verus!
