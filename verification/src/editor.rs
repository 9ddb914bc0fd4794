//! A full-screen editor for one file of the store: a fixed buffer with a
//! cursor, drawn into a window of 22 rows of 75 columns.

use crate::fs::fat16::{fat16_save, lemma_load_status, FsModel, FsStatus, MemoryFilesystem};
use crate::vga::{
    cell_index, clear, cleared, print_bytes, print_text, printed, put, text, write_char, Cell,
    Screen, SCREEN_CELLS,
};
use vstd::prelude::*;
use vstd::slice::slice_subrange;

verus! {

/// Width of the page in columns.
pub const EDITOR_WIDTH: usize = 80;

/// Number of rows of the window.
pub const EDITOR_HEIGHT: usize = 22;

/// First column of the window; the columns before it hold the line numbers.
pub const CONTENT_COL_OFFSET: usize = 5;

/// Number of columns of the window.
pub const CONTENT_WIDTH: usize = 75;

/// Capacity of the buffer in bytes.
pub const MAX_FILE_SIZE: usize = 8192;

/// Scancode of the key that leaves the editor.
pub const KEY_ESC: u8 = 0x01;

/// Scancode of the key that saves the buffer.
pub const KEY_F10: u8 = 0x44;

/// Letters of the top row of keys, from scancode 0x10 on.
pub const TOP_ROW: [u8; 10] = [0x71, 0x77, 0x65, 0x72, 0x74, 0x79, 0x75, 0x69, 0x6F, 0x70];

/// Letters of the home row of keys, from scancode 0x1E on.
pub const HOME_ROW: [u8; 9] = [0x61, 0x73, 0x64, 0x66, 0x67, 0x68, 0x6A, 0x6B, 0x6C];

/// Letters of the bottom row of keys, from scancode 0x2C on.
pub const BOTTOM_ROW: [u8; 7] = [0x7A, 0x78, 0x63, 0x76, 0x62, 0x6E, 0x6D];

/// The character that a plain key types in the editor, or 0 for a key that
/// types nothing.
pub open spec fn letter_of(scancode: u8) -> u8 {
    if 0x10 <= scancode <= 0x19 {
        TOP_ROW[scancode - 0x10]
    } else if 0x1E <= scancode <= 0x26 {
        HOME_ROW[scancode - 0x1E]
    } else if 0x2C <= scancode <= 0x32 {
        BOTTOM_ROW[scancode - 0x2C]
    } else if scancode == 0x33 {
        0x2C
    } else if scancode == 0x34 {
        0x2E
    } else {
        0
    }
}

/// The row below `row`, as far as rows can be counted.
pub open spec fn next_row(row: nat) -> nat {
    if row < usize::MAX {
        row + 1
    } else {
        row
    }
}

/// The editor as a mathematical value.
pub struct EditorModel {
    /// The bytes of the file being edited.
    pub content: Seq<u8>,
    /// Cursor column within the window.
    pub cursor_x: nat,
    /// Cursor row, counted from the first row shown.
    pub cursor_y: nat,
    /// Number of rows scrolled out above the window.
    pub offset: nat,
    /// Name of the file being edited.
    pub filename: Seq<u8>,
    /// Whether the buffer was changed since it was loaded or saved.
    pub modified: bool,
}

impl EditorModel {
    /// Holds when the content fits the buffer and the cursor column the
    /// window.
    pub open spec fn wf(self) -> bool {
        &&& self.content.len() <= MAX_FILE_SIZE
        &&& self.cursor_x < CONTENT_WIDTH
        &&& self.cursor_y <= usize::MAX
        &&& self.offset <= MAX_FILE_SIZE
        &&& self.filename.len() == 8
    }

    /// Index in the content of the byte under the cursor.
    pub open spec fn position(self) -> int {
        ((self.cursor_y + self.offset) * 75 + self.cursor_x) as int
    }

    /// Index in the content of the byte that a delete removes.
    pub open spec fn delete_position(self) -> int {
        (self.offset + self.cursor_y * 75 + self.cursor_x) as int
    }

    /// The cursor one cell further: past the last column it goes to the
    /// start of the next row.
    pub open spec fn moved_right(self) -> EditorModel {
        if self.cursor_x + 1 >= CONTENT_WIDTH {
            EditorModel { cursor_x: 0, cursor_y: next_row(self.cursor_y), ..self }
        } else {
            EditorModel { cursor_x: self.cursor_x + 1, ..self }
        }
    }

    /// The cursor one cell back: before the first column it goes to the end
    /// of the row above, if there is one.
    pub open spec fn moved_left(self) -> EditorModel {
        if self.cursor_x > 0 {
            EditorModel { cursor_x: (self.cursor_x - 1) as nat, ..self }
        } else if self.cursor_y > 0 {
            EditorModel {
                cursor_x: (CONTENT_WIDTH - 1) as nat,
                cursor_y: (self.cursor_y - 1) as nat,
                ..self
            }
        } else {
            self
        }
    }

    /// The cursor one row up, if there is one.
    pub open spec fn moved_up(self) -> EditorModel {
        if self.cursor_y > 0 {
            EditorModel { cursor_y: (self.cursor_y - 1) as nat, ..self }
        } else {
            self
        }
    }

    /// The cursor one row down.
    pub open spec fn moved_down(self) -> EditorModel {
        EditorModel { cursor_y: next_row(self.cursor_y), ..self }
    }

    /// The editor after `c` is typed: the byte goes in at the cursor, the
    /// bytes from there on move up by one, and the cursor advances. Nothing
    /// happens when the buffer is full or the cursor lies past the content.
    pub open spec fn inserted(self, c: u8) -> EditorModel {
        if self.content.len() >= MAX_FILE_SIZE || self.position() > self.content.len() {
            self
        } else {
            EditorModel {
                content: self.content.insert(self.position(), c),
                modified: true,
                ..self
            }.moved_right()
        }
    }

    /// The editor after a backspace: the byte before the cursor goes, the
    /// bytes after it move down by one, and the cursor moves back. Nothing
    /// happens at the very start, nor with the cursor past the content.
    pub open spec fn backspaced(self) -> EditorModel {
        if 0 < self.position() <= self.content.len() {
            EditorModel {
                content: self.content.remove(self.position() - 1),
                modified: true,
                ..self
            }.moved_left()
        } else {
            self
        }
    }

    /// The editor after a delete: the byte at the delete position goes and
    /// the bytes after it move down by one. Nothing happens past the content.
    pub open spec fn deleted(self) -> EditorModel {
        if self.delete_position() >= self.content.len() {
            self
        } else {
            EditorModel {
                content: self.content.remove(self.delete_position()),
                modified: true,
                ..self
            }
        }
    }

    /// The editor after one key: arrows move the cursor, backspace removes,
    /// space, enter and the letter keys type; every other key is ignored.
    pub open spec fn handled(self, scancode: u8) -> EditorModel {
        if scancode == 0x48 {
            self.moved_up()
        } else if scancode == 0x50 {
            self.moved_down()
        } else if scancode == 0x4B {
            self.moved_left()
        } else if scancode == 0x4D {
            self.moved_right()
        } else if scancode == 0x0E {
            self.backspaced()
        } else if scancode == 0x39 {
            self.inserted(0x20)
        } else if scancode == 0x1C {
            self.inserted(0x0A)
        } else if letter_of(scancode) != 0 {
            self.inserted(letter_of(scancode))
        } else {
            self
        }
    }

    /// The editor after the file `name` is loaded from the store: the
    /// content is what the store hands out for the buffer's capacity, the
    /// cursor is at the start and nothing counts as modified.
    pub open spec fn loaded(self, fs: FsModel, name: Seq<u8>) -> EditorModel {
        EditorModel {
            content: fs.load(name, MAX_FILE_SIZE as int).0,
            cursor_x: 0,
            cursor_y: 0,
            offset: self.offset,
            filename: name,
            modified: false,
        }
    }
}

/// Typing a byte and taking it back at once leaves content and cursor as
/// they were, wherever the cursor stands, in a buffer that is not full.
pub proof fn lemma_insert_then_backspace(m: EditorModel, c: u8)
    requires
        m.wf(),
        m.content.len() < MAX_FILE_SIZE,
    ensures
        m.inserted(c).backspaced().content == m.content,
        m.inserted(c).backspaced().cursor_x == m.cursor_x,
        m.inserted(c).backspaced().cursor_y == m.cursor_y,
        m.inserted(c).backspaced().offset == m.offset,
        m.inserted(c).backspaced().filename == m.filename,
{
    let pos = m.position();
    if pos <= m.content.len() {
        let typed = m.inserted(c);
        assert(typed.position() == pos + 1) by {
            assert((m.cursor_y + 1 + m.offset) * 75 == (m.cursor_y + m.offset) * 75 + 75);
        }
        assert(m.content.insert(pos, c).remove(pos) =~= m.content);
    }
}

/// The editor: a buffer of fixed capacity with the number of bytes in use,
/// the cursor, the scroll offset, the file's name and the modified flag.
pub struct TextEditor {
    content: [u8; 8192],
    size: usize,
    cursor_x: usize,
    cursor_y: usize,
    offset: usize,
    filename: [u8; 8],
    modified: bool,
}

impl View for TextEditor {
    type V = EditorModel;

    closed spec fn view(&self) -> EditorModel {
        EditorModel {
            content: self.content@.take(self.size as int),
            cursor_x: self.cursor_x as nat,
            cursor_y: self.cursor_y as nat,
            offset: self.offset as nat,
            filename: self.filename@,
            modified: self.modified,
        }
    }
}

impl TextEditor {
    /// Holds when the number of bytes in use fits the buffer.
    pub closed spec fn sized(&self) -> bool {
        self.size <= MAX_FILE_SIZE
    }

    /// Holds when the editor is sized and its value is well formed.
    pub open spec fn wf(&self) -> bool {
        self.sized() && self@.wf()
    }

    /// An editor with an empty buffer, the cursor at the start and a name of
    /// zero bytes.
    pub fn new() -> (editor: TextEditor)
        ensures
            editor.wf(),
            editor@ == (EditorModel {
                content: Seq::empty(),
                cursor_x: 0,
                cursor_y: 0,
                offset: 0,
                filename: Seq::new(8, |i: int| 0u8),
                modified: false,
            }),
    {
        let editor = TextEditor {
            content: [0u8; 8192],
            size: 0,
            cursor_x: 0,
            cursor_y: 0,
            offset: 0,
            filename: [0u8; 8],
            modified: false,
        };
        assert(editor@.content =~= Seq::<u8>::empty());
        assert(editor@.filename =~= Seq::new(8, |i: int| 0u8));
        editor
    }

    /// The bytes of the file being edited.
    pub fn content(&self) -> (bytes: Vec<u8>)
        requires
            self.wf(),
        ensures
            bytes@ == self@.content,
    {
        let mut bytes: Vec<u8> = Vec::new();
        let mut i: usize = 0;
        while i < self.size
            invariant
                i <= self.size <= MAX_FILE_SIZE,
                bytes@ == self.content@.take(i as int),
            decreases self.size - i,
        {
            bytes.push(self.content[i]);
            assert(bytes@ =~= self.content@.take(i + 1));
            i += 1;
        }
        bytes
    }

    /// Cursor column and row within the window.
    pub fn cursor(&self) -> (at: (usize, usize))
        ensures
            at.0 == self@.cursor_x,
            at.1 == self@.cursor_y,
    {
        (self.cursor_x, self.cursor_y)
    }

    /// Whether the buffer was changed since it was loaded or saved.
    pub fn is_modified(&self) -> (modified: bool)
        ensures
            modified == self@.modified,
    {
        self.modified
    }

    /// Name of the file being edited.
    pub fn filename(&self) -> (name: [u8; 8])
        ensures
            name@ == self@.filename,
    {
        self.filename
    }

    /// Where the hardware cursor belongs on the page: column and row of the
    /// cursor's cell, each as the 16 bits that the display takes.
    pub fn screen_cursor(&self) -> (at: (u16, u16))
        requires
            self.wf(),
        ensures
            at.0 == self@.cursor_x + CONTENT_COL_OFFSET,
            at.1 == (self@.cursor_y + 2) % 65536,
    {
        ((self.cursor_x + CONTENT_COL_OFFSET) as u16, ((self.cursor_y % 65536 + 2) % 65536) as u16)
    }

    /// Index in the content of the byte under the cursor, where it is at
    /// most the buffer's capacity.
    fn position(&self) -> (pos: Option<usize>)
        requires
            self.wf(),
        ensures
            pos == if self@.position() <= MAX_FILE_SIZE {
                Some(self@.position() as usize)
            } else {
                None
            },
    {
        if self.cursor_y > MAX_FILE_SIZE {
            None
        } else {
            let pos: usize = (self.cursor_y + self.offset) * CONTENT_WIDTH + self.cursor_x;
            if pos <= MAX_FILE_SIZE {
                Some(pos)
            } else {
                None
            }
        }
    }

    /// Loads the file named `filename` from the store into the buffer, as
    /// much of it as the buffer holds, and puts the cursor at the start.
    ///
    /// The status is that of [`MemoryFilesystem::load`]: with `NotFound` the
    /// buffer is empty.
    pub fn load_file(&mut self, fs: &MemoryFilesystem, filename: &[u8; 8]) -> (status: FsStatus)
        requires
            old(self).wf(),
            fs.wf(),
        ensures
            final(self).wf(),
            final(self)@ == old(self)@.loaded(fs@, filename@),
            status == fs@.load(filename@, MAX_FILE_SIZE as int).1,
    {
        self.size = 0;
        self.cursor_x = 0;
        self.cursor_y = 0;
        self.modified = false;
        self.filename = *filename;
        let (bytes, status) = fs.load(filename, MAX_FILE_SIZE);
        let count: usize = if bytes.len() < MAX_FILE_SIZE {
            bytes.len()
        } else {
            MAX_FILE_SIZE
        };
        proof {
            lemma_load_status(fs@, filename@, MAX_FILE_SIZE as int);
        }
        let mut i: usize = 0;
        while i < count
            invariant
                i <= count == bytes@.len() <= MAX_FILE_SIZE,
                self.size == 0,
                self.cursor_x == 0,
                self.cursor_y == 0,
                self.modified == false,
                self.offset == old(self).offset,
                self.filename@ == filename@,
                forall|k: int| 0 <= k < i ==> self.content@[k] == bytes@[k],
            decreases count - i,
        {
            self.content[i] = bytes[i];
            i += 1;
        }
        self.size = count;
        assert(self@.content =~= bytes@);
        status
    }

    /// Draws the editor: header, line numbers and the part of the content
    /// that the window shows.
    pub fn draw_editor(&self, screen: &mut Screen)
        requires
            self.wf(),
            old(screen).wf(),
        ensures
            final(screen).wf(),
            final(screen)@ == editor_page(old(screen)@, self@),
    {
        clear(screen, 0x1E);
        print_text(screen, 0, 0, 0x70, " Edytor Tekstu v0.1 - [F10] Zapisz  [ESC] Wyjdz ");
        let ghost framed = screen@;
        let mut row: usize = 0;
        while row < EDITOR_HEIGHT
            invariant
                row <= EDITOR_HEIGHT,
                self.wf(),
                screen.wf(),
                screen@ == editor_rows(framed, self@, row as int),
            decreases EDITOR_HEIGHT - row,
        {
            let actual_row: u64 = (row + 2) as u64;
            let line_num: usize = row + self.offset + 1;
            let mut num_buf: [u8; 4] = [0x20u8; 4];
            num_buf[0] = 0x30 + ((line_num / 100) % 10) as u8;
            num_buf[1] = 0x30 + ((line_num / 10) % 10) as u8;
            num_buf[2] = 0x30 + (line_num % 10) as u8;
            assert(num_buf@ =~= line_number_text(line_num as int));
            print_bytes(screen, 0, actual_row, 0x17, num_buf.as_slice());
            write_char(screen, 4, actual_row, 0x7C, 0x1F);
            let ghost numbered = screen@;
            let mut col: usize = 0;
            while col < CONTENT_WIDTH
                invariant
                    col <= CONTENT_WIDTH,
                    row < EDITOR_HEIGHT,
                    actual_row == row + 2,
                    self.wf(),
                    screen.wf(),
                    numbered.len() == SCREEN_CELLS,
                    screen@ == content_cells(numbered, self@, row as int, col as int),
                decreases CONTENT_WIDTH - col,
            {
                let idx: usize = (row + self.offset) * CONTENT_WIDTH + col;
                if idx < self.size {
                    write_char(
                        screen,
                        (col + CONTENT_COL_OFFSET) as u64,
                        actual_row,
                        self.content[idx],
                        0x1F,
                    );
                }
                assert(screen@ =~= content_cells(numbered, self@, row as int, col + 1));
                col += 1;
            }
            row += 1;
        }
    }

    /// Moves the cursor one cell to the right; past the last column it goes
    /// to the start of the next row.
    pub fn move_cursor_right(&mut self)
        requires
            old(self).wf(),
        ensures
            final(self).wf(),
            final(self)@ == old(self)@.moved_right(),
    {
        self.cursor_x += 1;
        if self.cursor_x >= CONTENT_WIDTH {
            self.cursor_x = 0;
            if self.cursor_y < usize::MAX {
                self.cursor_y += 1;
            }
        }
    }

    /// Moves the cursor one cell to the left; before the first column it
    /// goes to the end of the row above, if there is one.
    pub fn move_cursor_left(&mut self)
        requires
            old(self).wf(),
        ensures
            final(self).wf(),
            final(self)@ == old(self)@.moved_left(),
    {
        if self.cursor_x > 0 {
            self.cursor_x -= 1;
        } else if self.cursor_y > 0 {
            self.cursor_y -= 1;
            self.cursor_x = CONTENT_WIDTH - 1;
        }
    }

    /// Types the byte `c` at the cursor: the bytes from there on move up by
    /// one, the byte is written, and the cursor advances. A full buffer, or
    /// a cursor past the content, leaves the editor as it is.
    pub fn insert_char(&mut self, c: u8)
        requires
            old(self).wf(),
        ensures
            final(self).wf(),
            final(self)@ == old(self)@.inserted(c),
    {
        if self.size >= MAX_FILE_SIZE {
            return ;
        }
        let pos: usize = match self.position() {
            Some(p) => p,
            None => {
                return ;
            },
        };
        if pos <= self.size {
            let mut i: usize = self.size;
            while i > pos
                invariant
                    pos <= i <= self.size < MAX_FILE_SIZE,
                    self.size == old(self).size,
                    self.cursor_x == old(self).cursor_x,
                    self.cursor_y == old(self).cursor_y,
                    self.offset == old(self).offset,
                    self.filename == old(self).filename,
                    self.modified == old(self).modified,
                    forall|k: int| 0 <= k <= i ==> self.content@[k] == old(self).content@[k],
                    forall|k: int|
                        i < k <= self.size ==> self.content@[k] == old(self).content@[k - 1],
                decreases i,
            {
                self.content[i] = self.content[i - 1];
                i -= 1;
            }
            self.content[pos] = c;
            self.size += 1;
            self.modified = true;
            assert(self.content@.take(self.size as int) =~= old(self)@.content.insert(
                pos as int,
                c,
            ));
            self.move_cursor_right();
        }
    }

    /// Removes the byte at index `at` of the content: the bytes after it
    /// move down by one.
    fn remove_at(&mut self, at: usize)
        requires
            old(self).wf(),
            at < old(self)@.content.len(),
        ensures
            final(self).wf(),
            final(self)@ == (EditorModel {
                content: old(self)@.content.remove(at as int),
                modified: true,
                ..old(self)@
            }),
    {
        let last: usize = self.size - 1;
        let mut i: usize = at;
        while i < last
            invariant
                at <= i <= last,
                last == self.size - 1,
                self.size <= MAX_FILE_SIZE,
                self.size == old(self).size,
                self.cursor_x == old(self).cursor_x,
                self.cursor_y == old(self).cursor_y,
                self.offset == old(self).offset,
                self.filename == old(self).filename,
                forall|k: int| at <= k < i ==> self.content@[k] == old(self).content@[k + 1],
                forall|k: int|
                    0 <= k < MAX_FILE_SIZE && !(at <= k < i) ==> self.content@[k] == old(
                        self,
                    ).content@[k],
            decreases last - i,
        {
            self.content[i] = self.content[i + 1];
            i += 1;
        }
        self.size -= 1;
        self.modified = true;
        assert(self.content@.take(self.size as int) =~= old(self)@.content.remove(at as int));
    }

    /// Removes the byte at the delete position; the bytes after it move down
    /// by one. A position past the content leaves the editor as it is.
    pub fn delete_char(&mut self)
        requires
            old(self).wf(),
        ensures
            final(self).wf(),
            final(self)@ == old(self)@.deleted(),
    {
        if self.cursor_y > MAX_FILE_SIZE {
            return ;
        }
        let delete_pos: usize = self.offset + self.cursor_y * CONTENT_WIDTH + self.cursor_x;
        if delete_pos >= self.size {
            return ;
        }
        self.remove_at(delete_pos);
    }

    /// Removes the byte before the cursor and moves the cursor back. At the
    /// very start, or with the cursor past the content, nothing happens.
    pub fn backspace(&mut self)
        requires
            old(self).wf(),
        ensures
            final(self).wf(),
            final(self)@ == old(self)@.backspaced(),
    {
        match self.position() {
            Some(pos) => {
                if pos > 0 && pos <= self.size {
                    self.remove_at(pos - 1);
                    self.move_cursor_left();
                }
            },
            None => {},
        }
    }

    /// Acts on one key: arrows move the cursor, backspace removes, space,
    /// enter and the letter keys type. Every other key is ignored.
    pub fn handle_input(&mut self, scancode: u8)
        requires
            old(self).wf(),
        ensures
            final(self).wf(),
            final(self)@ == old(self)@.handled(scancode),
    {
        if scancode == 0x48 {
            if self.cursor_y > 0 {
                self.cursor_y -= 1;
            }
        } else if scancode == 0x50 {
            if self.cursor_y < usize::MAX {
                self.cursor_y += 1;
            }
        } else if scancode == 0x4B {
            self.move_cursor_left();
        } else if scancode == 0x4D {
            self.move_cursor_right();
        } else if scancode == 0x0E {
            self.backspace();
        } else if scancode == 0x39 {
            self.insert_char(0x20);
        } else if scancode == 0x1C {
            self.insert_char(0x0A);
        } else {
            let c: u8 = letter(scancode);
            if c != 0 {
                self.insert_char(c);
            }
        }
    }

    /// Saves the buffer as a new file under the editor's file name, as
    /// [`fat16_save`] does, and clears the modified flag whatever the status.
    pub fn save_file(&mut self, fs: &mut MemoryFilesystem) -> (status: FsStatus)
        requires
            old(self).wf(),
            old(fs).wf(),
        ensures
            final(self).wf(),
            final(fs).wf(),
            final(self)@ == (EditorModel { modified: false, ..old(self)@ }),
            (final(fs)@, status) == old(fs)@.save(old(self)@.filename, old(self)@.content),
    {
        let data: &[u8] = slice_subrange(self.content.as_slice(), 0, self.size);
        assert(data@ =~= self@.content);
        let status = fat16_save(fs, &self.filename, data);
        self.modified = false;
        status
    }
}

/// The character that a plain key types in the editor, or 0 for a key that
/// types nothing.
pub fn letter(scancode: u8) -> (c: u8)
    ensures
        c == letter_of(scancode),
{
    if 0x10 <= scancode && scancode <= 0x19 {
        TOP_ROW[(scancode - 0x10) as usize]
    } else if 0x1E <= scancode && scancode <= 0x26 {
        HOME_ROW[(scancode - 0x1E) as usize]
    } else if 0x2C <= scancode && scancode <= 0x32 {
        BOTTOM_ROW[(scancode - 0x2C) as usize]
    } else if scancode == 0x33 {
        0x2C
    } else if scancode == 0x34 {
        0x2E
    } else {
        0
    }
}

/// What the line number column shows for line `line`: its last three
/// decimal digits and a blank.
pub open spec fn line_number_text(line: int) -> Seq<u8> {
    seq![
        (0x30 + (line / 100) % 10) as u8,
        (0x30 + (line / 10) % 10) as u8,
        (0x30 + line % 10) as u8,
        0x20u8,
    ]
}

/// The page after the first `cols` columns of window row `row` are drawn:
/// each cell under which the content has a byte shows that byte.
pub open spec fn content_cells(page: Seq<Cell>, m: EditorModel, row: int, cols: int) -> Seq<Cell> {
    Seq::new(
        page.len(),
        |k: int|
            {
                let col = k - cell_index(CONTENT_COL_OFFSET as int, row + 2);
                let idx = (row + m.offset) * 75 + col;
                if 0 <= col < cols && idx < m.content.len() {
                    Cell { ch: m.content[idx], color: 0x1F }
                } else {
                    page[k]
                }
            },
    )
}

/// The page after the first `n` rows of the window are drawn, each with its
/// line number, a bar and its part of the content.
pub open spec fn editor_rows(page: Seq<Cell>, m: EditorModel, n: int) -> Seq<Cell>
    decreases n,
{
    if n <= 0 {
        page
    } else {
        let above = editor_rows(page, m, n - 1);
        let numbered = printed(above, 0, n + 1, 0x17, line_number_text(n + m.offset));
        let barred = put(numbered, 4, n + 1, Cell { ch: 0x7C, color: 0x1F });
        content_cells(barred, m, n - 1, CONTENT_WIDTH as int)
    }
}

/// The page that shows the editor: a header on the first row, then the 22
/// rows of the window from row 2 on.
pub open spec fn editor_page(page: Seq<Cell>, m: EditorModel) -> Seq<Cell> {
    editor_rows(
        printed(
            cleared(page, 0x1E),
            0,
            0,
            0x70,
            text(" Edytor Tekstu v0.1 - [F10] Zapisz  [ESC] Wyjdz "),
        ),
        m,
        EDITOR_HEIGHT as int,
    )
}

/// How a run of the editor over a sequence of keys ended.
pub struct Session {
    /// The editor after the run.
    pub editor: EditorModel,
    /// The store after the run.
    pub fs: FsModel,
    /// Whether the run ended with the key that leaves the editor.
    pub exited: bool,
    /// Number of scancodes that the run took from the sequence.
    pub consumed: nat,
}

/// The same session after one more scancode was taken before it.
pub open spec fn one_more(session: Session) -> Session {
    Session { consumed: (session.consumed + 1) as nat, ..session }
}

/// What one turn of the editor's control loop gives.
pub struct Turn {
    /// The editor after the turn.
    pub editor: EditorModel,
    /// The store after the turn.
    pub fs: FsModel,
    /// Whether the key was the one that leaves the editor.
    pub exit: bool,
}

/// One turn of the editor's control loop.
///
/// A break code is passed over. Escape leaves the editor. The save key saves
/// the buffer as a new file and clears the modified flag. Every key but
/// Escape then goes to [`EditorModel::handled`].
pub open spec fn turn(editor: EditorModel, fs: FsModel, key: u8) -> Turn {
    if key >= 0x80 {
        Turn { editor, fs, exit: false }
    } else if key == KEY_ESC {
        Turn { editor, fs, exit: true }
    } else if key == KEY_F10 {
        Turn {
            editor: (EditorModel { modified: false, ..editor }).handled(key),
            fs: fs.save(editor.filename, editor.content).0,
            exit: false,
        }
    } else {
        Turn { editor: editor.handled(key), fs, exit: false }
    }
}

/// The editor's control loop over a sequence of scancodes: one [`turn`]
/// after the other, up to and with the first that leaves the editor. A
/// sequence without such a key is taken whole.
pub open spec fn run_model(editor: EditorModel, fs: FsModel, keys: Seq<u8>) -> Session
    decreases keys.len(),
{
    if keys.len() == 0 {
        Session { editor, fs, exited: false, consumed: 0 }
    } else if turn(editor, fs, keys[0]).exit {
        Session { editor, fs, exited: true, consumed: 1 }
    } else {
        one_more(
            run_model(turn(editor, fs, keys[0]).editor, turn(editor, fs, keys[0]).fs, keys.skip(1)),
        )
    }
}

/// What [`TextEditor::run`] reports.
#[derive(Debug, Clone, Copy, PartialEq, Eq, Structural)]
pub struct RunOutcome {
    /// Whether the run ended with the key that leaves the editor.
    pub exited: bool,
    /// Number of scancodes taken from the sequence.
    pub consumed: usize,
}

/// The editor's page does not depend on what the page showed before.
pub proof fn lemma_editor_page_fresh(p: Seq<Cell>, q: Seq<Cell>, m: EditorModel)
    requires
        p.len() == q.len(),
    ensures
        editor_page(p, m) == editor_page(q, m),
{
    assert(cleared(p, 0x1E) =~= cleared(q, 0x1E));
}

impl TextEditor {
    /// Takes one turn of the control loop on the scancode `key`: [`turn`].
    /// After a key that acted, the page shows the editor anew. The result
    /// says whether the key was the one that leaves the editor.
    pub fn step(&mut self, fs: &mut MemoryFilesystem, screen: &mut Screen, key: u8) -> (exit: bool)
        requires
            old(self).wf(),
            old(fs).wf(),
            old(screen).wf(),
        ensures
            final(self).wf(),
            final(fs).wf(),
            final(screen).wf(),
            final(self)@ == turn(old(self)@, old(fs)@, key).editor,
            final(fs)@ == turn(old(self)@, old(fs)@, key).fs,
            exit == turn(old(self)@, old(fs)@, key).exit,
            final(screen)@ == if key < 0x80 && key != KEY_ESC {
                editor_page(old(screen)@, final(self)@)
            } else {
                old(screen)@
            },
    {
        if key >= 0x80 {
            return false;
        }
        if key == KEY_ESC {
            return true;
        }
        if key == KEY_F10 {
            self.save_file(fs);
        }
        self.handle_input(key);
        self.draw_editor(screen);
        false
    }

    /// Runs the editor over the scancodes in `keys`, in order: draws the
    /// editor, then takes one [`TextEditor::step`] after the other, until
    /// the key that leaves the editor or the end of the sequence.
    ///
    /// The page shows the editor as it stands at the end.
    pub fn run(&mut self, fs: &mut MemoryFilesystem, screen: &mut Screen, keys: &[u8]) -> (outcome:
        RunOutcome)
        requires
            old(self).wf(),
            old(fs).wf(),
            old(screen).wf(),
        ensures
            final(self).wf(),
            final(fs).wf(),
            final(screen).wf(),
            final(self)@ == run_model(old(self)@, old(fs)@, keys@).editor,
            final(fs)@ == run_model(old(self)@, old(fs)@, keys@).fs,
            outcome.exited == run_model(old(self)@, old(fs)@, keys@).exited,
            outcome.consumed == run_model(old(self)@, old(fs)@, keys@).consumed,
            final(screen)@ == editor_page(old(screen)@, final(self)@),
    {
        self.draw_editor(screen);
        let mut i: usize = 0;
        assert(keys@.skip(0) =~= keys@);
        while i < keys.len()
            invariant
                i <= keys@.len(),
                self.wf(),
                fs.wf(),
                screen.wf(),
                old(screen).wf(),
                screen@ == editor_page(old(screen)@, self@),
                run_model(old(self)@, old(fs)@, keys@) == (Session {
                    consumed: (run_model(self@, fs@, keys@.skip(i as int)).consumed + i) as nat,
                    ..run_model(self@, fs@, keys@.skip(i as int))
                }),
            decreases keys@.len() - i,
        {
            let k: u8 = keys[i];
            proof {
                assert(keys@.skip(i as int)[0] == k);
                assert(keys@.skip(i as int).skip(1) =~= keys@.skip(i + 1));
            }
            i += 1;
            let ghost shown = screen@;
            if self.step(fs, screen, k) {
                return RunOutcome { exited: true, consumed: i };
            }
            proof {
                lemma_editor_page_fresh(shown, old(screen)@, self@);
            }
        }
        RunOutcome { exited: false, consumed: i }
    }
}

/// Opens the file named `filename` in the editor and runs the editor over
/// the scancodes in `keys`: [`TextEditor::load_file`], then
/// [`TextEditor::run`].
pub fn edit_file(
    editor: &mut TextEditor,
    fs: &mut MemoryFilesystem,
    screen: &mut Screen,
    filename: &[u8; 8],
    keys: &[u8],
) -> (outcome: RunOutcome)
    requires
        old(editor).wf(),
        old(fs).wf(),
        old(screen).wf(),
    ensures
        final(editor).wf(),
        final(fs).wf(),
        final(screen).wf(),
        final(editor)@ == run_model(
            old(editor)@.loaded(old(fs)@, filename@),
            old(fs)@,
            keys@,
        ).editor,
        final(fs)@ == run_model(old(editor)@.loaded(old(fs)@, filename@), old(fs)@, keys@).fs,
        outcome.exited == run_model(
            old(editor)@.loaded(old(fs)@, filename@),
            old(fs)@,
            keys@,
        ).exited,
        outcome.consumed == run_model(
            old(editor)@.loaded(old(fs)@, filename@),
            old(fs)@,
            keys@,
        ).consumed,
        final(screen)@ == editor_page(old(screen)@, final(editor)@),
{
    editor.load_file(fs, filename);
    editor.run(fs, screen, keys)
}

} // verus!
