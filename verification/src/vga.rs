//! The 80x25 text page: colours, cells and the drawing primitives.

use vstd::prelude::*;
use vstd::string::StringSliceAdditionalSpecFns;

verus! {

/// Columns of the text page.
pub const SCREEN_WIDTH: usize = 80;

/// Rows of the text page.
pub const SCREEN_HEIGHT: usize = 25;

/// Cells of the text page.
pub const SCREEN_CELLS: usize = 2000;

/// The sixteen colours of the text mode palette, in palette order.
#[derive(Debug, Clone, Copy, PartialEq, Eq, Structural)]
pub enum Color {
    Black,
    Blue,
    Green,
    Cyan,
    Red,
    Magenta,
    Brown,
    White,
    Gray,
    LightBlue,
    LightGreen,
    LightCyan,
    LightRed,
    Pink,
    Yellow,
    LightWhite,
}

impl Color {
    /// Palette index of the colour, 0 to 15.
    pub open spec fn spec_code(self) -> u8 {
        match self {
            Color::Black => 0,
            Color::Blue => 1,
            Color::Green => 2,
            Color::Cyan => 3,
            Color::Red => 4,
            Color::Magenta => 5,
            Color::Brown => 6,
            Color::White => 7,
            Color::Gray => 8,
            Color::LightBlue => 9,
            Color::LightGreen => 10,
            Color::LightCyan => 11,
            Color::LightRed => 12,
            Color::Pink => 13,
            Color::Yellow => 14,
            Color::LightWhite => 15,
        }
    }

    /// Palette index of the colour, 0 to 15.
    #[verifier::when_used_as_spec(spec_code)]
    pub fn code(self) -> (c: u8)
        ensures
            c == self.spec_code(),
            c < 16,
    {
        match self {
            Color::Black => 0,
            Color::Blue => 1,
            Color::Green => 2,
            Color::Cyan => 3,
            Color::Red => 4,
            Color::Magenta => 5,
            Color::Brown => 6,
            Color::White => 7,
            Color::Gray => 8,
            Color::LightBlue => 9,
            Color::LightGreen => 10,
            Color::LightCyan => 11,
            Color::LightRed => 12,
            Color::Pink => 13,
            Color::Yellow => 14,
            Color::LightWhite => 15,
        }
    }
}

/// An attribute byte: background colour in the high nibble, foreground in the
/// low nibble.
#[derive(Debug, Clone, Copy, PartialEq, Eq, Structural)]
pub struct ColorCode(u8);

impl ColorCode {
    /// The attribute byte.
    pub closed spec fn spec_as_u8(&self) -> u8 {
        self.0
    }

    /// Combines a foreground and a background colour into one attribute.
    pub fn new(foreground: Color, background: Color) -> (code: ColorCode)
        ensures
            code.as_u8() == background.code() * 16 + foreground.code(),
    {
        let bg: u8 = background.code();
        let fg: u8 = foreground.code();
        assert((bg << 4 | fg) == bg * 16 + fg) by (bit_vector)
            requires
                bg < 16,
                fg < 16,
        ;
        ColorCode(bg << 4 | fg)
    }

    /// The attribute byte.
    #[verifier::when_used_as_spec(spec_as_u8)]
    pub fn as_u8(&self) -> (byte: u8)
        ensures
            byte == self.spec_as_u8(),
    {
        self.0
    }
}

/// One character cell of the text page.
#[derive(Debug, Clone, Copy, PartialEq, Eq, Structural)]
pub struct Cell {
    /// Code page 437 character code.
    pub ch: u8,
    /// Attribute byte, as [`ColorCode::as_u8`] gives it.
    pub color: u8,
}

/// Character code of the blank cell.
pub const BLANK: u8 = 0x20;

/// Character code of the full block glyph.
pub const FULL_BLOCK: u8 = 0xDB;

/// Linear index of the cell at `(col, row)`: cells are laid out row by row.
pub open spec fn cell_index(col: int, row: int) -> int {
    row * 80 + col
}

/// The page after one cell is written at `(col, row)`. A position past the
/// last cell is not on the page, and writing there changes nothing.
pub open spec fn put(page: Seq<Cell>, col: int, row: int, cell: Cell) -> Seq<Cell> {
    if 0 <= cell_index(col, row) < page.len() {
        page.update(cell_index(col, row), cell)
    } else {
        page
    }
}

/// The page after `bytes` are written in one colour into consecutive cells
/// starting at `(col, row)`, running on into the following rows.
pub open spec fn printed(page: Seq<Cell>, col: int, row: int, color: u8, bytes: Seq<u8>) -> Seq<
    Cell,
> {
    Seq::new(
        page.len(),
        |k: int|
            if 0 <= k - cell_index(col, row) < bytes.len() {
                Cell { ch: bytes[k - cell_index(col, row)], color }
            } else {
                page[k]
            },
    )
}

/// The page with every cell blank in the given colour.
pub open spec fn cleared(page: Seq<Cell>, color: u8) -> Seq<Cell> {
    Seq::new(page.len(), |k: int| Cell { ch: BLANK, color })
}

/// The attribute that shows one colour as both foreground and background.
pub open spec fn block_color(color: u8) -> u8 {
    (color << 4) | color
}

/// The page after `count` consecutive cells starting at `(col, row)` are
/// overwritten with `cell`.
pub open spec fn filled_run(page: Seq<Cell>, col: int, row: int, count: int, cell: Cell) -> Seq<
    Cell,
> {
    Seq::new(
        page.len(),
        |k: int|
            if 0 <= k - cell_index(col, row) < count {
                cell
            } else {
                page[k]
            },
    )
}

/// The page after a `w` by `h` rectangle of full blocks is drawn with its
/// top left corner at `(col, row)`, one row of `w` cells after the other.
pub open spec fn filled_rect(page: Seq<Cell>, col: int, row: int, w: int, h: int, color: u8) -> Seq<
    Cell,
>
    decreases h,
{
    if h <= 0 {
        page
    } else {
        filled_run(
            filled_rect(page, col, row, w, h - 1, color),
            col,
            row + h - 1,
            w,
            Cell { ch: FULL_BLOCK, color: block_color(color) },
        )
    }
}

/// A page of blank cells in light grey on black.
pub open spec fn blank_page() -> Seq<Cell> {
    Seq::new(SCREEN_CELLS as nat, |k: int| Cell { ch: BLANK, color: 0x07 })
}

/// The text page as a value: 25 rows of 80 cells.
pub struct Screen {
    cells: Vec<Cell>,
}

impl View for Screen {
    type V = Seq<Cell>;

    closed spec fn view(&self) -> Seq<Cell> {
        self.cells@
    }
}

impl Screen {
    /// Holds when the page has exactly its 2000 cells.
    pub open spec fn wf(&self) -> bool {
        self@.len() == SCREEN_CELLS
    }

    /// A page of blank cells in light grey on black.
    pub fn new() -> (screen: Screen)
        ensures
            screen.wf(),
            screen@ == blank_page(),
    {
        let screen = Screen { cells: vec![Cell { ch: BLANK, color: 0x07 }; SCREEN_CELLS] };
        assert(screen@ =~= blank_page());
        screen
    }

    /// The cell at `(col, row)`, or `None` when the position is off the page.
    pub fn get(&self, col: usize, row: usize) -> (cell: Option<Cell>)
        requires
            self.wf(),
        ensures
            cell == if col < SCREEN_WIDTH && row < SCREEN_HEIGHT {
                Some(self@[cell_index(col as int, row as int)])
            } else {
                None
            },
    {
        if col < SCREEN_WIDTH && row < SCREEN_HEIGHT {
            Some(self.cells[row * SCREEN_WIDTH + col])
        } else {
            None
        }
    }
}

/// Writes one character with its attribute at `(col, row)`.
///
/// Columns past 79 run on into the following rows. A position past the last
/// cell of the page is not visible: the page stays as it is.
pub fn write_char(screen: &mut Screen, col: u64, row: u64, ch: u8, color: u8)
    requires
        old(screen).wf(),
    ensures
        final(screen).wf(),
        final(screen)@ == put(old(screen)@, col as int, row as int, Cell { ch, color }),
{
    if row < 25 && col < 2000 {
        let index: u64 = row * 80 + col;
        if index < 2000 {
            screen.cells[index as usize] = Cell { ch, color };
        }
    }
}

/// Blanks the whole page in the given colour.
pub fn clear(screen: &mut Screen, color: u8)
    requires
        old(screen).wf(),
    ensures
        final(screen).wf(),
        final(screen)@ == cleared(old(screen)@, color),
{
    let mut k: usize = 0;
    while k < SCREEN_CELLS
        invariant
            k <= SCREEN_CELLS,
            screen.wf(),
            forall|j: int| 0 <= j < k ==> screen@[j] == (Cell { ch: BLANK, color }),
        decreases SCREEN_CELLS - k,
    {
        screen.cells[k] = Cell { ch: BLANK, color };
        k += 1;
    }
    assert(screen@ =~= cleared(old(screen)@, color));
}

/// Writes `bytes` in one colour into consecutive cells starting at
/// `(col, row)`.
pub fn print_bytes(screen: &mut Screen, col: u64, row: u64, color: u8, bytes: &[u8])
    requires
        old(screen).wf(),
    ensures
        final(screen).wf(),
        final(screen)@ == printed(old(screen)@, col as int, row as int, color, bytes@),
{
    if row < 25 && col < 2000 {
        let mut i: usize = 0;
        while i < bytes.len() && i < 2000
            invariant
                row < 25,
                col < 2000,
                i <= bytes.len(),
                i <= 2000,
                screen.wf(),
                screen@ == printed(old(screen)@, col as int, row as int, color, bytes@.take(i as int)),
            decreases bytes.len() - i,
        {
            write_char(screen, col + i as u64, row, bytes[i], color);
            assert(screen@ =~= printed(
                old(screen)@,
                col as int,
                row as int,
                color,
                bytes@.take(i + 1),
            ));
            i += 1;
        }
    }
    assert(final(screen)@ =~= printed(old(screen)@, col as int, row as int, color, bytes@));
}

/// Writes `count` copies of one cell into consecutive cells starting at
/// `(col, row)`.
pub fn fill_run(screen: &mut Screen, col: u64, row: u64, count: u64, cell: Cell)
    requires
        old(screen).wf(),
    ensures
        final(screen).wf(),
        final(screen)@ == filled_run(old(screen)@, col as int, row as int, count as int, cell),
{
    if row < 25 && col < 2000 {
        let mut i: u64 = 0;
        while i < count && i < 2000
            invariant
                row < 25,
                col < 2000,
                i <= count,
                i <= 2000,
                screen.wf(),
                screen@ == filled_run(old(screen)@, col as int, row as int, i as int, cell),
            decreases count - i,
        {
            write_char(screen, col + i, row, cell.ch, cell.color);
            assert(screen@ =~= filled_run(old(screen)@, col as int, row as int, i + 1, cell));
            i += 1;
        }
    }
    assert(final(screen)@ =~= filled_run(
        old(screen)@,
        col as int,
        row as int,
        count as int,
        cell,
    ));
}

/// Draws one full block at `(col, row)`, foreground and background both in
/// `color`, so that the cell shows as a solid rectangle.
pub fn draw_block(screen: &mut Screen, col: u64, row: u64, color: u8)
    requires
        old(screen).wf(),
    ensures
        final(screen).wf(),
        final(screen)@ == put(
            old(screen)@,
            col as int,
            row as int,
            Cell { ch: FULL_BLOCK, color: block_color(color) },
        ),
{
    let full_color: u8 = (color << 4) | color;
    write_char(screen, col, row, FULL_BLOCK, full_color);
}

/// The bytes of a text, as the page shows them: one cell for each byte.
pub open spec fn text(s: &str) -> Seq<u8> {
    s.spec_bytes()
}

/// Writes a text in one colour into consecutive cells starting at
/// `(col, row)`, one cell for each byte of it.
pub fn print_text(screen: &mut Screen, col: u64, row: u64, color: u8, text: &str)
    requires
        old(screen).wf(),
    ensures
        final(screen).wf(),
        final(screen)@ == printed(old(screen)@, col as int, row as int, color, self::text(text)),
{
    print_bytes(screen, col, row, color, text.as_bytes());
}

/// Rows that start past the last row of the page do not change it.
pub proof fn lemma_rect_off_page(page: Seq<Cell>, col: int, row: int, w: int, h: int, color: u8)
    requires
        0 <= col,
        0 <= row,
        page.len() == SCREEN_CELLS,
        h >= 0,
    ensures
        filled_rect(page, col, row, w, h, color).len() == page.len(),
        row + h >= 25 ==> filled_rect(page, col, row, w, h, color) == filled_rect(
            page,
            col,
            row,
            w,
            if row >= 25 {
                0
            } else {
                25 - row
            },
            color,
        ),
    decreases h,
{
    if h > 0 {
        lemma_rect_off_page(page, col, row, w, h - 1, color);
        if row + h > 25 {
            let inner = filled_rect(page, col, row, w, h - 1, color);
            assert(filled_rect(page, col, row, w, h, color) =~= inner);
        }
    }
}

/// A rectangle that lies on the page covers the cells of its columns and
/// rows, and no others.
pub proof fn lemma_rect_cells(page: Seq<Cell>, col: int, row: int, w: int, h: int, color: u8)
    requires
        page.len() == SCREEN_CELLS,
        0 <= col,
        0 <= w,
        col + w <= 80,
        0 <= row,
        0 <= h,
        row + h <= 25,
    ensures
        filled_rect(page, col, row, w, h, color).len() == page.len(),
        forall|c: int, r: int|
            0 <= c < 80 && 0 <= r < 25 ==> #[trigger] filled_rect(page, col, row, w, h, color)[
                cell_index(c, r)
            ] == if col <= c < col + w && row <= r < row + h {
                Cell { ch: FULL_BLOCK, color: block_color(color) }
            } else {
                page[cell_index(c, r)]
            },
    decreases h,
{
    if h > 0 {
        lemma_rect_cells(page, col, row, w, h - 1, color);
        let above = filled_rect(page, col, row, w, h - 1, color);
        let all = filled_rect(page, col, row, w, h, color);
        assert forall|c: int, r: int| 0 <= c < 80 && 0 <= r < 25 implies #[trigger] all[
            cell_index(c, r)
        ] == if col <= c < col + w && row <= r < row + h {
            Cell { ch: FULL_BLOCK, color: block_color(color) }
        } else {
            page[cell_index(c, r)]
        } by {
            let k = cell_index(c, r);
            let start = cell_index(col, row + h - 1);
            assert(above[k] == if col <= c < col + w && row <= r < row + h - 1 {
                Cell { ch: FULL_BLOCK, color: block_color(color) }
            } else {
                page[k]
            });
            assert((0 <= k - start < w) <==> (r == row + h - 1 && col <= c < col + w));
        }
    }
}

/// Draws a `w` by `h` rectangle of full blocks in `color`, top left corner at
/// `(col, row)`.
pub fn draw_rect(screen: &mut Screen, col: u64, row: u64, w: u64, h: u64, color: u8)
    requires
        old(screen).wf(),
    ensures
        final(screen).wf(),
        final(screen)@ == filled_rect(
            old(screen)@,
            col as int,
            row as int,
            w as int,
            h as int,
            color,
        ),
{
    let cell = Cell { ch: FULL_BLOCK, color: (color << 4) | color };
    let mut r: u64 = 0;
    while r < h && row < 25 && r < 25 - row
        invariant
            r <= h,
            row < 25 ==> r <= 25 - row,
            row >= 25 ==> r == 0,
            cell == (Cell { ch: FULL_BLOCK, color: block_color(color) }),
            screen.wf(),
            screen@ == filled_rect(old(screen)@, col as int, row as int, w as int, r as int, color),
        decreases h - r,
    {
        fill_run(screen, col, row + r, w, cell);
        r += 1;
    }
    proof {
        lemma_rect_off_page(old(screen)@, col as int, row as int, w as int, h as int, color);
    }
}

/// Blanks `count` consecutive cells in `color`, starting at `(col, row)`. A
/// start column past the right edge begins at the first cell of the next row.
pub fn clear_animated(screen: &mut Screen, col: u64, row: u64, color: u8, count: u64)
    requires
        old(screen).wf(),
    ensures
        final(screen).wf(),
        final(screen)@ == filled_run(
            old(screen)@,
            if col > 80 {
                0
            } else {
                col as int
            },
            if col > 80 {
                row + 1
            } else {
                row as int
            },
            count as int,
            Cell { ch: BLANK, color },
        ),
{
    let cell = Cell { ch: BLANK, color };
    if col > 80 {
        if row < 25 {
            fill_run(screen, 0, row + 1, count, cell);
        } else {
            assert(screen@ =~= filled_run(screen@, 0, row + 1, count as int, cell));
        }
    } else {
        fill_run(screen, col, row, count, cell);
    }
}

/// The page of the character set menu. Where the extended character set is
/// not part of the build, the page says so.
pub open spec fn unicode_menu_page(page: Seq<Cell>, enabled: bool) -> Seq<Cell> {
    let blank = cleared(page, 0x00);
    if enabled {
        let a = printed(blank, 0, 0, 0x0F, text("UNICODE MENU (ASCII)"));
        let b = printed(a, 0, 2, 0x0E, text("Polskie znaki w ASCII nie beda widoczne"));
        let c = printed(b, 0, 4, 0x0A, text("Key 0 - Back to Main Menu"));
        let d = printed(c, 0, 6, 0x09, text("Key 1 - (brak 720p w kernelu)"));
        printed(d, 0, 24, 0x70, text(" Nacisnij 0, aby wrocic do menu glownego "))
    } else {
        let a = printed(blank, 0, 0, 0x0E, text("Unicode menu disabled in this build"));
        printed(a, 0, 2, 0x07, text("Enable feature 'unicode' to restore it."))
    }
}

/// Draws the character set menu, or the notice that stands in for it.
pub fn unicode_menu(screen: &mut Screen, enabled: bool)
    requires
        old(screen).wf(),
    ensures
        final(screen).wf(),
        final(screen)@ == unicode_menu_page(old(screen)@, enabled),
{
    clear(screen, 0x00);
    if enabled {
        print_text(screen, 0, 0, 0x0F, "UNICODE MENU (ASCII)");
        print_text(screen, 0, 2, 0x0E, "Polskie znaki w ASCII nie beda widoczne");
        print_text(screen, 0, 4, 0x0A, "Key 0 - Back to Main Menu");
        print_text(screen, 0, 6, 0x09, "Key 1 - (brak 720p w kernelu)");
        print_text(screen, 0, 24, 0x70, " Nacisnij 0, aby wrocic do menu glownego ");
    } else {
        print_text(screen, 0, 0, 0x0E, "Unicode menu disabled in this build");
        print_text(screen, 0, 2, 0x07, "Enable feature 'unicode' to restore it.");
    }
}

/// The page after `bytes` replace the characters of consecutive cells
/// starting at `(col, row)`; the cells keep their colours.
pub open spec fn lettered(page: Seq<Cell>, col: int, row: int, bytes: Seq<u8>) -> Seq<Cell> {
    Seq::new(
        page.len(),
        |k: int|
            if 0 <= k - cell_index(col, row) < bytes.len() {
                Cell { ch: bytes[k - cell_index(col, row)], color: page[k].color }
            } else {
                page[k]
            },
    )
}

/// Replaces the characters of consecutive cells starting at `(col, row)`
/// with `bytes` and leaves the colours of the cells as they are.
pub fn write_letters(screen: &mut Screen, col: u64, row: u64, bytes: &[u8])
    requires
        old(screen).wf(),
    ensures
        final(screen).wf(),
        final(screen)@ == lettered(old(screen)@, col as int, row as int, bytes@),
{
    if row < 25 && col < 2000 {
        let start: usize = (row * 80 + col) as usize;
        let mut i: usize = 0;
        while i < bytes.len() && start + i < SCREEN_CELLS
            invariant
                start == cell_index(col as int, row as int),
                i <= bytes.len(),
                start + i <= SCREEN_CELLS || i == 0,
                screen.wf(),
                screen@ == lettered(old(screen)@, col as int, row as int, bytes@.take(i as int)),
            decreases bytes.len() - i,
        {
            let color: u8 = screen.cells[start + i].color;
            screen.cells[start + i] = Cell { ch: bytes[i], color };
            assert(screen@ =~= lettered(
                old(screen)@,
                col as int,
                row as int,
                bytes@.take(i + 1),
            ));
            i += 1;
        }
    }
    assert(final(screen)@ =~= lettered(old(screen)@, col as int, row as int, bytes@));
}

} // verus!
