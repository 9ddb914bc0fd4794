//! The keyboard-driven state machine: one scancode in, the next state of
//! menus, input bar, file store and page out.

use crate::fs::fat16::{
    commander_list, commander_page, fat16_create_file, fat16_mc, listed_count, refresh_mc_list,
    FsModel, MemoryFilesystem, MC_LIST_SLOTS,
};
use crate::kernel_main::{lcg_next, next_rand, seed_rng, Rng};
use crate::vga::{
    blank_page, clear, clear_animated, cleared, draw_rect, filled_rect, filled_run, print_bytes, print_text,
    printed, put, text, unicode_menu, unicode_menu_page, write_char, Cell, Screen, BLANK,
};
use vstd::prelude::*;

verus! {

/// Capacity of the input bar in bytes.
pub const INPUT_CAPACITY: usize = 60;

/// Make code of Escape.
pub const KEY_ESC: u8 = 0x01;

/// Make code of the digit 1.
pub const KEY_1: u8 = 0x02;

/// Make code of the digit 2.
pub const KEY_2: u8 = 0x03;

/// Make code of the digit 3.
pub const KEY_3: u8 = 0x04;

/// Make code of the digit 4.
pub const KEY_4: u8 = 0x05;

/// Make code of the digit 6; it opens the character set menu too.
pub const KEY_6: u8 = 0x07;

/// Make code of the digit 8; it opens the character set menu too.
pub const KEY_8: u8 = 0x09;

/// Make code of the digit 9.
pub const KEY_9: u8 = 0x0A;

/// Make code of the digit 0.
pub const KEY_0: u8 = 0x0B;

/// Make code of Backspace.
pub const KEY_BACKSPACE: u8 = 0x0E;

/// Make code of the letter I.
pub const KEY_I: u8 = 0x17;

/// Make code of Enter.
pub const KEY_ENTER: u8 = 0x1C;

/// Make code of the letter M.
pub const KEY_M: u8 = 0x32;

/// Make code of the ALT key.
pub const KEY_ALT: u8 = 0x38;

/// Break code of the ALT key.
pub const KEY_ALT_RELEASED: u8 = 0xB8;

/// The key that restarts the machine.
pub const KEY_F5: u8 = 0x3F;

/// The key that starts a new file in the mini-commander.
pub const KEY_F7: u8 = 0x41;

/// The key that opens the character set menu.
pub const KEY_F8: u8 = 0x42;

/// Make code of Home.
pub const KEY_HOME: u8 = 0x47;

/// Make code of the up arrow.
pub const KEY_UP: u8 = 0x48;

/// Make code of the down arrow.
pub const KEY_DOWN: u8 = 0x50;

/// A further code under which some keyboards send the character set key.
pub const KEY_F8_ALTERNATE: u8 = 0x64;

/// The menu that the keys act on while no text is being captured.
#[derive(Debug, Clone, Copy, PartialEq, Eq, Structural)]
pub enum Menu {
    MainMenu,
    MathMenu,
    UnicodeMenu,
    MiniCommander,
}

/// What the text captured at the input bar is for.
#[derive(Debug, Clone, Copy, PartialEq, Eq, Structural)]
pub enum CaptureContext {
    /// The text is shown back on a status line.
    FreeEcho,
    /// The text names a file to create.
    CreateFileName,
}

/// The mode of the interface.
#[derive(Debug, Clone, Copy, PartialEq, Eq, Structural)]
pub enum Mode {
    MainMenu,
    MathMenu,
    UnicodeMenu,
    MiniCommander,
    InputCapture(CaptureContext),
}

/// What the caller has to do after a scancode was handled.
#[derive(Debug, Clone, Copy, PartialEq, Eq)]
pub enum Action {
    /// Nothing: go on reading scancodes.
    Continue,
    /// Open the named file in the editor, run the editor until it is left,
    /// and then call [`Kernel::editor_closed`].
    OpenEditor([u8; 8]),
    /// Reset the machine.
    Reboot,
}

/// An [`Action`] as a mathematical value.
pub enum ActionModel {
    Continue,
    OpenEditor(Seq<u8>),
    Reboot,
}

impl View for Action {
    type V = ActionModel;

    open spec fn view(&self) -> ActionModel {
        match *self {
            Action::Continue => ActionModel::Continue,
            Action::OpenEditor(name) => ActionModel::OpenEditor(name@),
            Action::Reboot => ActionModel::Reboot,
        }
    }
}

/// The state of the interface that outlives a single key.
pub struct GlobalControlState {
    /// The menu shown, or the one to come back to while text is captured.
    pub menu: Menu,
    /// The scancode seen last, or 0 after a key was released.
    pub last_scancode: u8,
    /// Whether the ALT key is held.
    pub alt: bool,
    /// Whether the input bar is capturing text.
    pub capturing: bool,
    /// What the captured text is for.
    pub context: CaptureContext,
    /// The text captured so far.
    pub input: Vec<u8>,
    /// The slot selected in the mini-commander.
    pub selection: u8,
    /// Number of files found when the mini-commander last drew its list.
    pub file_count: u8,
    /// Whether the extended character set menu is part of the system.
    pub unicode: bool,
}

/// A [`GlobalControlState`] as a mathematical value.
pub struct ControlModel {
    pub menu: Menu,
    pub last_scancode: u8,
    pub alt: bool,
    pub capturing: bool,
    pub context: CaptureContext,
    pub input: Seq<u8>,
    pub selection: u8,
    pub file_count: u8,
    pub unicode: bool,
}

impl View for GlobalControlState {
    type V = ControlModel;

    open spec fn view(&self) -> ControlModel {
        ControlModel {
            menu: self.menu,
            last_scancode: self.last_scancode,
            alt: self.alt,
            capturing: self.capturing,
            context: self.context,
            input: self.input@,
            selection: self.selection,
            file_count: self.file_count,
            unicode: self.unicode,
        }
    }
}

impl ControlModel {
    /// Holds when the captured text fits the input bar.
    pub open spec fn wf(self) -> bool {
        self.input.len() <= INPUT_CAPACITY
    }

    /// The mode of the interface.
    pub open spec fn mode(self) -> Mode {
        if self.capturing {
            Mode::InputCapture(self.context)
        } else {
            match self.menu {
                Menu::MainMenu => Mode::MainMenu,
                Menu::MathMenu => Mode::MathMenu,
                Menu::UnicodeMenu => Mode::UnicodeMenu,
                Menu::MiniCommander => Mode::MiniCommander,
            }
        }
    }

    /// The state in which the system starts.
    pub open spec fn initial(unicode: bool) -> ControlModel {
        ControlModel {
            menu: Menu::MainMenu,
            last_scancode: 0,
            alt: false,
            capturing: false,
            context: CaptureContext::FreeEcho,
            input: Seq::empty(),
            selection: 0,
            file_count: 0,
            unicode,
        }
    }
}

impl GlobalControlState {
    /// Holds when the captured text fits the input bar.
    pub open spec fn wf(&self) -> bool {
        self@.wf()
    }

    /// The state in which the system starts: main menu, nothing captured,
    /// no key seen.
    pub fn new(unicode: bool) -> (state: GlobalControlState)
        ensures
            state.wf(),
            state@ == ControlModel::initial(unicode),
    {
        GlobalControlState {
            menu: Menu::MainMenu,
            last_scancode: 0,
            alt: false,
            capturing: false,
            context: CaptureContext::FreeEcho,
            input: Vec::new(),
            selection: 0,
            file_count: 0,
            unicode,
        }
    }

    /// The mode of the interface.
    pub fn mode(&self) -> (mode: Mode)
        ensures
            mode == self@.mode(),
    {
        if self.capturing {
            Mode::InputCapture(self.context)
        } else {
            match self.menu {
                Menu::MainMenu => Mode::MainMenu,
                Menu::MathMenu => Mode::MathMenu,
                Menu::UnicodeMenu => Mode::UnicodeMenu,
                Menu::MiniCommander => Mode::MiniCommander,
            }
        }
    }
}

/// One line of the main menu: `Click`, the key, a dash and what the key does.
pub open spec fn menu_line(
    page: Seq<Cell>,
    row: int,
    key_color: u8,
    key: Seq<u8>,
    dash_col: int,
    label_color: u8,
    label: Seq<u8>,
) -> Seq<Cell> {
    let a = printed(page, 0, row, 0x0F, text("Click"));
    let b = printed(a, 6, row, key_color, key);
    let c = put(b, dash_col, row, Cell { ch: 0x2D, color: 0x0F });
    printed(c, dash_col + 2, row, label_color, label)
}

/// The letters of the system's name on the first row, each in its colour.
pub open spec fn banner(page: Seq<Cell>) -> Seq<Cell> {
    let a = put(page, 0, 0, Cell { ch: 0x52, color: 0x0F });
    let b = put(a, 1, 0, Cell { ch: 0x75, color: 0x0A });
    let c = put(b, 2, 0, Cell { ch: 0x73, color: 0x0E });
    let d = put(c, 3, 0, Cell { ch: 0x74, color: 0x0C });
    let e = put(d, 4, 0, Cell { ch: 0x65, color: 0x0B });
    put(e, 5, 0, Cell { ch: 0x64, color: 0x05 })
}

/// The page of the main menu.
pub open spec fn main_menu_page(page: Seq<Cell>) -> Seq<Cell> {
    let top = banner(cleared(page, 0x00));
    let l1 = menu_line(top, 2, 0x0C, text("Key 1"), 12, 0x0A, text("Mode1"));
    let l2 = menu_line(l1, 3, 0x0A, text("Key 2"), 12, 0x0B, text("Mode2"));
    let l3 = menu_line(l2, 4, 0x0E, text("Key 3"), 12, 0x0C, text("Mode3"));
    let l4 = menu_line(l3, 5, 0x09, text("Key 4"), 12, 0x0D, text("Line"));
    let l5 = menu_line(l4, 6, 0x01, text("Key 9"), 12, 0x07, text("Secrets"));
    let l6 = menu_line(l5, 7, 0x0D, text("Key M"), 12, 0x09, text("Math"));
    let l7 = menu_line(l6, 8, 0x0D, text("Key 0"), 12, 0x0E, text("Start"));
    let l8 = menu_line(l7, 10, 0x05, text("ESC"), 10, 0x04, text("CLEAR"));
    menu_line(l8, 11, 0x02, text("F5"), 10, 0x06, text("REBOOT"))
}

fn draw_menu_line(
    screen: &mut Screen,
    row: u64,
    key_color: u8,
    key: &str,
    dash_col: u64,
    label_color: u8,
    label: &str,
)
    requires
        old(screen).wf(),
        dash_col < 100,
    ensures
        final(screen).wf(),
        final(screen)@ == menu_line(
            old(screen)@,
            row as int,
            key_color,
            text(key),
            dash_col as int,
            label_color,
            text(label),
        ),
{
    print_text(screen, 0, row, 0x0F, "Click");
    print_text(screen, 6, row, key_color, key);
    write_char(screen, dash_col, row, 0x2D, 0x0F);
    print_text(screen, dash_col + 2, row, label_color, label);
}

/// Shows the main menu and makes it the current menu.
pub fn main_menu(state: &mut GlobalControlState, screen: &mut Screen)
    requires
        old(state).wf(),
        old(screen).wf(),
    ensures
        final(state).wf(),
        final(screen).wf(),
        final(state)@ == (ControlModel { menu: Menu::MainMenu, ..old(state)@ }),
        final(screen)@ == main_menu_page(old(screen)@),
{
    clear(screen, 0x00);
    state.menu = Menu::MainMenu;
    write_char(screen, 0, 0, 0x52, 0x0F);
    write_char(screen, 1, 0, 0x75, 0x0A);
    write_char(screen, 2, 0, 0x73, 0x0E);
    write_char(screen, 3, 0, 0x74, 0x0C);
    write_char(screen, 4, 0, 0x65, 0x0B);
    write_char(screen, 5, 0, 0x64, 0x05);
    draw_menu_line(screen, 2, 0x0C, "Key 1", 12, 0x0A, "Mode1");
    draw_menu_line(screen, 3, 0x0A, "Key 2", 12, 0x0B, "Mode2");
    draw_menu_line(screen, 4, 0x0E, "Key 3", 12, 0x0C, "Mode3");
    draw_menu_line(screen, 5, 0x09, "Key 4", 12, 0x0D, "Line");
    draw_menu_line(screen, 6, 0x01, "Key 9", 12, 0x07, "Secrets");
    draw_menu_line(screen, 7, 0x0D, "Key M", 12, 0x09, "Math");
    draw_menu_line(screen, 8, 0x0D, "Key 0", 12, 0x0E, "Start");
    draw_menu_line(screen, 10, 0x05, "ESC", 10, 0x04, "CLEAR");
    draw_menu_line(screen, 11, 0x02, "F5", 10, 0x06, "REBOOT");
}

/// What each key types at the input bar, by scancode; 0 for a key that
/// types nothing. Letters are capitals.
pub const PLAIN_KEYS: [u8; 64] = [
    0x00, 0x00, 0x31, 0x32, 0x33, 0x34, 0x35, 0x36,
    0x37, 0x38, 0x39, 0x30, 0x2D, 0x3D, 0x00, 0x00,
    0x51, 0x57, 0x45, 0x52, 0x54, 0x59, 0x55, 0x49,
    0x4F, 0x50, 0x5B, 0x5D, 0x00, 0x00, 0x41, 0x53,
    0x44, 0x46, 0x47, 0x48, 0x4A, 0x4B, 0x4C, 0x3B,
    0x27, 0x60, 0x00, 0x5C, 0x5A, 0x58, 0x43, 0x56,
    0x42, 0x4E, 0x4D, 0x2C, 0x2E, 0x2F, 0x00, 0x00,
    0x00, 0x20, 0x00, 0x00, 0x00, 0x00, 0x00, 0x00,
];

/// What each key types at the input bar while ALT is held, by scancode: the
/// codes 1 to 9 of the letters with diacritics, 0 for every other key.
pub const POLISH_KEYS: [u8; 64] = [
    0x00, 0x00, 0x00, 0x00, 0x00, 0x00, 0x00, 0x00,
    0x00, 0x00, 0x00, 0x00, 0x00, 0x00, 0x00, 0x00,
    0x00, 0x00, 0x03, 0x00, 0x00, 0x00, 0x00, 0x00,
    0x06, 0x00, 0x00, 0x00, 0x00, 0x00, 0x01, 0x07,
    0x00, 0x00, 0x00, 0x00, 0x00, 0x00, 0x04, 0x00,
    0x00, 0x00, 0x00, 0x00, 0x08, 0x09, 0x02, 0x00,
    0x00, 0x05, 0x00, 0x00, 0x00, 0x00, 0x00, 0x00,
    0x00, 0x00, 0x00, 0x00, 0x00, 0x00, 0x00, 0x00,
];

/// What a key types at the input bar, or 0 for a key that types nothing.
pub open spec fn capture_char(alt: bool, scancode: u8) -> u8 {
    if scancode >= 64 {
        0
    } else if alt {
        POLISH_KEYS[scancode as int]
    } else {
        PLAIN_KEYS[scancode as int]
    }
}

/// What a key types at the input bar, or 0 for a key that types nothing.
pub fn key_char(alt: bool, scancode: u8) -> (c: u8)
    ensures
        c == capture_char(alt, scancode),
{
    if scancode >= 64 {
        0
    } else if alt {
        POLISH_KEYS[scancode as usize]
    } else {
        PLAIN_KEYS[scancode as usize]
    }
}

/// The capital of a small letter; every other byte as it is.
pub open spec fn upper(c: u8) -> u8 {
    if 0x61 <= c <= 0x7A {
        (c - 32) as u8
    } else {
        c
    }
}

/// The file name that a captured text stands for: its first eight bytes in
/// capitals, padded with blanks.
pub open spec fn file_name_of(input: Seq<u8>) -> Seq<u8> {
    Seq::new(
        8,
        |i: int|
            if i < input.len() {
                upper(input[i])
            } else {
                BLANK
            },
    )
}

/// The file name that a captured text stands for: its first eight bytes in
/// capitals, padded with blanks.
pub fn file_name_from_input(input: &[u8]) -> (name: [u8; 8])
    ensures
        name@ == file_name_of(input@),
{
    let mut name: [u8; 8] = [BLANK; 8];
    let count: usize = if input.len() > 8 {
        8
    } else {
        input.len()
    };
    let mut i: usize = 0;
    while i < count
        invariant
            i <= count <= 8,
            count <= input@.len(),
            count == 8 || count == input@.len(),
            forall|j: int| 0 <= j < i ==> name@[j] == upper(input@[j]),
            forall|j: int| i <= j < 8 ==> name@[j] == BLANK,
        decreases count - i,
    {
        let c: u8 = input[i];
        name[i] = if c >= 0x61 && c <= 0x7A {
            c - 32
        } else {
            c
        };
        i += 1;
    }
    assert(name@ =~= file_name_of(input@));
    name
}

/// The character that shows a value from 0 to 15 as a hexadecimal digit.
pub open spec fn hex_digit(n: int) -> u8 {
    if n < 10 {
        (0x30 + n) as u8
    } else {
        (0x41 + n - 10) as u8
    }
}

/// The page after the scancode seen last is shown in the top right corner.
pub open spec fn scancode_shown(page: Seq<Cell>, scancode: u8) -> Seq<Cell> {
    let a = put(page, 74, 0, Cell { ch: 0x53, color: 0x0F });
    let b = put(a, 75, 0, Cell { ch: 0x43, color: 0x0F });
    let c = put(b, 77, 0, Cell { ch: hex_digit(scancode as int / 16), color: 0x0E });
    put(c, 78, 0, Cell { ch: hex_digit(scancode as int % 16), color: 0x0E })
}

/// The page after an arithmetic example is shown: a caption, the sum and
/// its result.
pub open spec fn example_shown(
    page: Seq<Cell>,
    color: u8,
    caption: Seq<u8>,
    sum: Seq<u8>,
    result: u8,
) -> Seq<Cell> {
    let a = printed(page, 0, 10, color, caption);
    let b = printed(a, 0, 11, 0x0F, sum);
    put(b, 8, 11, Cell { ch: result, color: 0x0F })
}

/// The page after a number from 0 to 99 is shown, without a leading zero.
pub open spec fn number_shown(page: Seq<Cell>, n: int) -> Seq<Cell> {
    let a = printed(page, 0, 10, 0x07, text("Random Number: "));
    if n / 10 > 0 {
        let b = put(a, 15, 10, Cell { ch: (0x30 + n / 10) as u8, color: 0x07 });
        put(b, 16, 10, Cell { ch: (0x30 + n % 10) as u8, color: 0x07 })
    } else {
        put(a, 15, 10, Cell { ch: (0x30 + n % 10) as u8, color: 0x07 })
    }
}

/// The page after the input bar is drawn.
pub open spec fn input_bar(page: Seq<Cell>) -> Seq<Cell> {
    printed(filled_rect(page, 0, 24, 80, 1, 0x07), 0, 24, 0x70, text(" INPUT > "))
}

/// The page after the prompt for a new file's name is drawn.
pub open spec fn name_prompt(page: Seq<Cell>) -> Seq<Cell> {
    let a = filled_rect(page, 9, 7, 62, 10, 0x07);
    let b = filled_rect(a, 10, 8, 60, 8, 0x01);
    let c = printed(b, 12, 9, 0x1F, text(" UTWORZ PLIK "));
    let d = printed(c, 12, 11, 0x1F, text("Nazwa (8 znakow, A-Z/0-9):"));
    printed(d, 0, 24, 0x70, text(" NAME > "))
}

/// The page after the input bar is wiped.
pub open spec fn input_bar_wiped(page: Seq<Cell>) -> Seq<Cell> {
    filled_run(page, 0, 24, 100, Cell { ch: BLANK, color: 0x00 })
}

/// The page that tells why the character set menu's demonstration cannot
/// run.
pub open spec fn demo_notice(page: Seq<Cell>) -> Seq<Cell> {
    let a = printed(cleared(page, 0x00), 0, 5, 0x0C, text("Tryb 720p wymaga VM86!"));
    let b = printed(a, 0, 6, 0x0C, text("W kernelu nie mozna uzywac INT 0x10"));
    printed(b, 0, 8, 0x0E, text("Nacisnij 0 aby wrocic"))
}

/// The whole system as a mathematical value.
pub struct SystemModel {
    pub control: ControlModel,
    pub fs: FsModel,
    pub page: Seq<Cell>,
    pub seed: u64,
}

/// What handling one scancode gives: the next state of the system and what
/// is left for the caller to do.
pub struct Step {
    pub system: SystemModel,
    pub action: ActionModel,
}

impl SystemModel {
    /// Holds when every part is well formed.
    pub open spec fn wf(self) -> bool {
        self.control.wf() && self.fs.wf() && self.page.len() == 2000
    }

    /// The system with another page.
    pub open spec fn showing(self, page: Seq<Cell>) -> SystemModel {
        SystemModel { page, ..self }
    }

    /// The system after the main menu is shown and made current.
    pub open spec fn at_main_menu(self) -> SystemModel {
        SystemModel {
            control: ControlModel { menu: Menu::MainMenu, ..self.control },
            page: main_menu_page(self.page),
            ..self
        }
    }

    /// The system after the mini-commander's list is redrawn and its files
    /// are counted.
    pub open spec fn list_refreshed(self) -> SystemModel {
        SystemModel {
            control: ControlModel {
                file_count: listed_count(self.fs.dir, MC_LIST_SLOTS as int) as u8,
                ..self.control
            },
            page: commander_list(self.page, self.fs.dir, self.control.selection as int),
            ..self
        }
    }

    /// The system after the mini-commander is drawn and its files are
    /// counted.
    pub open spec fn commander_shown(self) -> SystemModel {
        SystemModel {
            control: ControlModel {
                file_count: listed_count(self.fs.dir, MC_LIST_SLOTS as int) as u8,
                ..self.control
            },
            page: commander_page(self.page, self.fs.dir, self.control.selection as int),
            ..self
        }
    }

    /// A key in the main menu.
    ///
    /// 1, 2 and 3 print a banner on row `row`; 4 draws a line; M opens the
    /// math menu; I starts capturing text to echo; Home opens the
    /// mini-commander on its first slot; the character set keys open that
    /// menu; Escape clears the page. Every other key is ignored, 9 among
    /// them, whatever the menu says of it.
    pub open spec fn on_main_menu(self, scancode: u8, row: u64) -> SystemModel {
        if scancode == KEY_1 {
            self.showing(printed(self.page, 0, row as int, 0x0A, text("Rusted M1")))
        } else if scancode == KEY_2 {
            self.showing(printed(self.page, 0, row as int, 0x0E, text("Rusted M2")))
        } else if scancode == KEY_3 {
            self.showing(printed(self.page, 0, row as int, 0x0C, text("Rusted M3")))
        } else if scancode == KEY_4 {
            self.showing(filled_rect(self.page, 0, 12, 80, 1, 0x02))
        } else if scancode == KEY_M {
            SystemModel {
                control: ControlModel { menu: Menu::MathMenu, ..self.control },
                page: printed(
                    cleared(self.page, 0x00),
                    0,
                    0,
                    0x0F,
                    text("MATH MENU: 1-Add, 2-Sub, 3-Mul, 4-Div, 9-Rand, 0-Back"),
                ),
                ..self
            }
        } else if scancode == KEY_I {
            SystemModel {
                control: ControlModel {
                    capturing: true,
                    context: CaptureContext::FreeEcho,
                    ..self.control
                },
                page: input_bar(self.page),
                ..self
            }
        } else if scancode == KEY_HOME {
            (SystemModel {
                control: ControlModel {
                    selection: 0,
                    menu: Menu::MiniCommander,
                    ..self.control
                },
                ..self
            }).commander_shown()
        } else if scancode == KEY_F8 || scancode == KEY_6 || scancode == KEY_F8_ALTERNATE
            || scancode == KEY_8 {
            SystemModel {
                control: ControlModel { menu: Menu::UnicodeMenu, ..self.control },
                page: unicode_menu_page(self.page, self.control.unicode),
                ..self
            }
        } else if scancode == KEY_ESC {
            self.showing(cleared(self.page, 0x00))
        } else {
            self
        }
    }

    /// A key in the math menu.
    ///
    /// 1 to 4 show a fixed example each; 9 advances the generator and shows
    /// its state reduced to 0 to 99; 0 goes back to the main menu. Every
    /// other key is ignored.
    pub open spec fn on_math_menu(self, scancode: u8) -> SystemModel {
        if scancode == KEY_0 {
            self.at_main_menu()
        } else if scancode == KEY_1 {
            self.showing(
                example_shown(self.page, 0x0A, text("Addition selected!"), text("2 + 2 = "), 0x34),
            )
        } else if scancode == KEY_2 {
            self.showing(
                example_shown(
                    self.page,
                    0x0E,
                    text("Subtraction selected!"),
                    text("5 - 3 = "),
                    0x32,
                ),
            )
        } else if scancode == KEY_3 {
            self.showing(
                example_shown(
                    self.page,
                    0x0C,
                    text("Multiplication selected!"),
                    text("3 * 4 = "),
                    0x3C,
                ),
            )
        } else if scancode == KEY_4 {
            self.showing(
                example_shown(self.page, 0x09, text("Division selected!"), text("8 / 2 = "), 0x34),
            )
        } else if scancode == KEY_9 {
            SystemModel {
                seed: lcg_next(self.seed),
                page: number_shown(self.page, lcg_next(self.seed) as int % 100),
                ..self
            }
        } else {
            self
        }
    }

    /// A key in the character set menu: 0 goes back to the main menu, 1
    /// shows a notice. Every other key is ignored.
    pub open spec fn on_unicode_menu(self, scancode: u8) -> SystemModel {
        if scancode == KEY_0 {
            self.at_main_menu()
        } else if scancode == KEY_1 {
            self.showing(demo_notice(self.page))
        } else {
            self
        }
    }

    /// A key in the mini-commander.
    ///
    /// Up and Down move the selection, which stays between 0 and the last
    /// file counted, and redraw the list. F7 draws the prompt for a name and
    /// starts capturing it. Enter, with no file counted, shows a message
    /// and does nothing else; otherwise it asks the caller to open the file
    /// in the selected slot. Escape goes back to the main menu. Every other
    /// key is ignored.
    pub open spec fn on_mini_commander(self, scancode: u8) -> Step {
        if scancode == KEY_UP {
            Step {
                system: (SystemModel {
                    control: ControlModel {
                        selection: if self.control.selection > 0 {
                            (self.control.selection - 1) as u8
                        } else {
                            self.control.selection
                        },
                        ..self.control
                    },
                    ..self
                }).list_refreshed(),
                action: ActionModel::Continue,
            }
        } else if scancode == KEY_DOWN {
            Step {
                system: (SystemModel {
                    control: ControlModel {
                        selection: if self.control.selection + 1 < self.control.file_count {
                            (self.control.selection + 1) as u8
                        } else {
                            self.control.selection
                        },
                        ..self.control
                    },
                    ..self
                }).list_refreshed(),
                action: ActionModel::Continue,
            }
        } else if scancode == KEY_F7 {
            Step {
                system: SystemModel {
                    control: ControlModel {
                        context: CaptureContext::CreateFileName,
                        input: Seq::empty(),
                        capturing: true,
                        ..self.control
                    },
                    page: name_prompt(self.page),
                    ..self
                },
                action: ActionModel::Continue,
            }
        } else if scancode == KEY_ENTER {
            if self.control.file_count == 0 {
                Step {
                    system: self.showing(
                        printed(
                            self.page,
                            2,
                            22,
                            0x0E,
                            text("Brak plikow - uzyj F7 aby utworzyc"),
                        ),
                    ),
                    action: ActionModel::Continue,
                }
            } else {
                Step {
                    system: self,
                    action: ActionModel::OpenEditor(
                        self.fs.dir[self.control.selection as int].name,
                    ),
                }
            }
        } else if scancode == KEY_ESC {
            Step { system: self.at_main_menu(), action: ActionModel::Continue }
        } else {
            Step { system: self, action: ActionModel::Continue }
        }
    }

    /// A key while text is captured.
    ///
    /// Enter commits a text that is not empty: a file name is turned into
    /// eight capitals and handed to the store's create, whatever comes of
    /// it, and the mini-commander is shown; a text to echo is shown on the
    /// status line. Either way the capture ends and the text is dropped.
    /// Escape drops the text and ends the capture. Backspace takes the last
    /// byte back. Home leaves for the mini-commander. Every other key but
    /// ALT types its character, if it has one and the bar has room.
    pub open spec fn on_input_capture(self, scancode: u8) -> SystemModel {
        let c = self.control;
        if scancode == KEY_ENTER {
            if c.input.len() == 0 {
                self
            } else if c.context == CaptureContext::CreateFileName {
                (SystemModel {
                    control: ControlModel {
                        capturing: false,
                        input: Seq::empty(),
                        context: CaptureContext::FreeEcho,
                        menu: Menu::MiniCommander,
                        ..c
                    },
                    fs: self.fs.create(file_name_of(c.input)).0,
                    ..self
                }).commander_shown()
            } else {
                SystemModel {
                    control: ControlModel { capturing: false, input: Seq::empty(), ..c },
                    page: input_bar_wiped(
                        printed(
                            printed(self.page, 0, 22, 0x0E, text("OSTATNI INPUT: ")),
                            15,
                            22,
                            0x0F,
                            c.input,
                        ),
                    ),
                    ..self
                }
            }
        } else if scancode == KEY_ESC {
            SystemModel {
                control: ControlModel { capturing: false, input: Seq::empty(), ..c },
                page: input_bar_wiped(self.page),
                ..self
            }
        } else if scancode == KEY_BACKSPACE {
            if c.input.len() > 0 {
                SystemModel {
                    control: ControlModel { input: c.input.drop_last(), ..c },
                    page: put(
                        self.page,
                        9 + c.input.len() - 1,
                        24,
                        Cell { ch: BLANK, color: 0x70 },
                    ),
                    ..self
                }
            } else {
                self
            }
        } else if scancode == KEY_HOME {
            (SystemModel {
                control: ControlModel {
                    selection: 0,
                    capturing: false,
                    menu: Menu::MiniCommander,
                    ..c
                },
                ..self
            }).commander_shown()
        } else if scancode != KEY_ALT && capture_char(c.alt, scancode) != 0 && c.input.len()
            < INPUT_CAPACITY {
            SystemModel {
                control: ControlModel { input: c.input.push(capture_char(c.alt, scancode)), ..c },
                page: put(
                    self.page,
                    9 + c.input.len() as int,
                    24,
                    Cell { ch: capture_char(c.alt, scancode), color: 0x70 },
                ),
                ..self
            }
        } else {
            self
        }
    }

    /// The system after a scancode that differs from the last one is taken
    /// note of: it becomes the last one seen, it is shown in the corner of
    /// the page, and the ALT key sets or clears its latch.
    pub open spec fn latched(self, scancode: u8) -> SystemModel {
        SystemModel {
            control: ControlModel {
                last_scancode: scancode,
                alt: if scancode == KEY_ALT {
                    true
                } else if scancode == KEY_ALT_RELEASED {
                    false
                } else {
                    self.control.alt
                },
                ..self.control
            },
            page: scancode_shown(self.page, scancode),
            ..self
        }
    }

    /// The system after the handler of the current mode has seen a make
    /// code.
    pub open spec fn handled(self, scancode: u8, row: u64) -> Step {
        if self.control.capturing {
            Step { system: self.on_input_capture(scancode), action: ActionModel::Continue }
        } else {
            match self.control.menu {
                Menu::MainMenu => Step {
                    system: self.on_main_menu(scancode, row),
                    action: ActionModel::Continue,
                },
                Menu::MathMenu => Step {
                    system: self.on_math_menu(scancode),
                    action: ActionModel::Continue,
                },
                Menu::UnicodeMenu => Step {
                    system: self.on_unicode_menu(scancode),
                    action: ActionModel::Continue,
                },
                Menu::MiniCommander => self.on_mini_commander(scancode),
            }
        }
    }

    /// The transition of the whole system on one scancode.
    ///
    /// A scancode equal to the last one seen is a key still held, and is
    /// passed over. A new make code goes to the handler of the current mode;
    /// after that the reset key asks for a reset, whatever the mode. A break
    /// code goes to no handler. Whether new or not, it clears the record of
    /// the last scancode, so that the same key counts again when it is
    /// pressed next.
    pub open spec fn dispatch(self, scancode: u8, row: u64) -> Step {
        if scancode >= 0x80 {
            let seen = if scancode != self.control.last_scancode {
                self.latched(scancode)
            } else {
                self
            };
            Step {
                system: SystemModel {
                    control: ControlModel { last_scancode: 0, ..seen.control },
                    ..seen
                },
                action: ActionModel::Continue,
            }
        } else if scancode == self.control.last_scancode {
            Step { system: self, action: ActionModel::Continue }
        } else {
            let step = self.latched(scancode).handled(scancode, row);
            Step {
                system: step.system,
                action: if scancode == KEY_F5 {
                    ActionModel::Reboot
                } else {
                    step.action
                },
            }
        }
    }
}

/// No break code reaches a handler: it changes neither mode, captured text,
/// selection, file count, store nor generator, and asks nothing of the
/// caller. All it does is clear the record of the last scancode, clear the
/// ALT latch if it is the ALT key's, and show itself in the corner of the
/// page if it is new.
pub proof fn lemma_break_code_resets_latches_only(s: SystemModel, scancode: u8, row: u64)
    requires
        scancode >= 0x80,
    ensures
        s.dispatch(scancode, row).action == ActionModel::Continue,
        s.dispatch(scancode, row).system.fs == s.fs,
        s.dispatch(scancode, row).system.seed == s.seed,
        s.dispatch(scancode, row).system.control == (ControlModel {
            last_scancode: 0,
            alt: if scancode == KEY_ALT_RELEASED && scancode != s.control.last_scancode {
                false
            } else {
                s.control.alt
            },
            ..s.control
        }),
        s.dispatch(scancode, row).system.page == if scancode != s.control.last_scancode {
            scancode_shown(s.page, scancode)
        } else {
            s.page
        },
{
}

/// In the mini-commander with no file counted, the key that opens a file
/// shows the message that there are none and opens nothing.
pub proof fn lemma_open_without_files(s: SystemModel, row: u64)
    requires
        !s.control.capturing,
        s.control.menu == Menu::MiniCommander,
        s.control.file_count == 0,
        s.control.last_scancode != KEY_ENTER,
    ensures
        s.dispatch(KEY_ENTER, row).action == ActionModel::Continue,
        s.dispatch(KEY_ENTER, row).system.fs == s.fs,
        s.dispatch(KEY_ENTER, row).system.page == printed(
            scancode_shown(s.page, KEY_ENTER),
            2,
            22,
            0x0E,
            text("Brak plikow - uzyj F7 aby utworzyc"),
        ),
{
}

/// The whole system: control state, file store, page and generator.
pub struct Kernel {
    pub control: GlobalControlState,
    pub fs: MemoryFilesystem,
    pub screen: Screen,
    pub rng: Rng,
}

impl View for Kernel {
    type V = SystemModel;

    open spec fn view(&self) -> SystemModel {
        SystemModel {
            control: self.control@,
            fs: self.fs@,
            page: self.screen@,
            seed: self.rng.seed,
        }
    }
}

/// The character that shows a value from 0 to 15 as a hexadecimal digit.
fn hex_char(n: u8) -> (c: u8)
    requires
        n < 16,
    ensures
        c == hex_digit(n as int),
{
    if n < 10 {
        0x30 + n
    } else {
        0x41 + (n - 10)
    }
}

impl Kernel {
    /// Holds when every part of the system is well formed.
    pub open spec fn wf(&self) -> bool {
        self.control.wf() && self.fs.wf() && self.screen.wf()
    }

    /// Starts the system: an empty store, the generator seeded with a
    /// reading of the cycle counter, and the main menu on the page.
    pub fn boot(counter: u64, unicode: bool) -> (kernel: Kernel)
        ensures
            kernel.wf(),
            kernel@.control == ControlModel::initial(unicode),
            kernel@.fs == FsModel::formatted(),
            kernel@.seed == counter,
            kernel@.page == main_menu_page(blank_page()),
    {
        let mut kernel = Kernel {
            control: GlobalControlState::new(unicode),
            fs: MemoryFilesystem::new(),
            screen: Screen::new(),
            rng: Rng::new(),
        };
        seed_rng(&mut kernel.rng, counter);
        main_menu(&mut kernel.control, &mut kernel.screen);
        kernel
    }

    fn show_commander(&mut self)
        requires
            old(self).wf(),
        ensures
            final(self).wf(),
            final(self)@ == old(self)@.commander_shown(),
    {
        self.control.file_count = fat16_mc(&self.fs, &mut self.screen, self.control.selection);
    }

    fn refresh_list(&mut self)
        requires
            old(self).wf(),
        ensures
            final(self).wf(),
            final(self)@ == old(self)@.list_refreshed(),
    {
        self.control.file_count = refresh_mc_list(
            &self.fs,
            &mut self.screen,
            self.control.selection,
        );
    }

    fn show_example(&mut self, color: u8, caption: &str, sum: &str, result: u8)
        requires
            old(self).wf(),
        ensures
            final(self).wf(),
            final(self)@ == old(self)@.showing(
                example_shown(old(self)@.page, color, text(caption), text(sum), result),
            ),
    {
        print_text(&mut self.screen, 0, 10, color, caption);
        print_text(&mut self.screen, 0, 11, 0x0F, sum);
        write_char(&mut self.screen, 8, 11, result, 0x0F);
    }

    /// Called when the editor that [`Action::OpenEditor`] asked for was
    /// left: shows the mini-commander again, with the files counted anew.
    pub fn editor_closed(&mut self)
        requires
            old(self).wf(),
        ensures
            final(self).wf(),
            final(self)@ == old(self)@.commander_shown(),
    {
        self.show_commander();
    }

    /// Handles a key in the main menu.
    pub fn main_menu_key(&mut self, scancode: u8, row: u64)
        requires
            old(self).wf(),
        ensures
            final(self).wf(),
            final(self)@ == old(self)@.on_main_menu(scancode, row),
    {
        if scancode == KEY_1 {
            print_text(&mut self.screen, 0, row, 0x0A, "Rusted M1");
        } else if scancode == KEY_2 {
            print_text(&mut self.screen, 0, row, 0x0E, "Rusted M2");
        } else if scancode == KEY_3 {
            print_text(&mut self.screen, 0, row, 0x0C, "Rusted M3");
        } else if scancode == KEY_4 {
            draw_rect(&mut self.screen, 0, 12, 80, 1, 0x02);
        } else if scancode == KEY_M {
            self.control.menu = Menu::MathMenu;
            clear(&mut self.screen, 0x00);
            print_text(
                &mut self.screen,
                0,
                0,
                0x0F,
                "MATH MENU: 1-Add, 2-Sub, 3-Mul, 4-Div, 9-Rand, 0-Back",
            );
        } else if scancode == KEY_I {
            self.control.capturing = true;
            self.control.context = CaptureContext::FreeEcho;
            draw_rect(&mut self.screen, 0, 24, 80, 1, 0x07);
            print_text(&mut self.screen, 0, 24, 0x70, " INPUT > ");
        } else if scancode == KEY_HOME {
            self.control.selection = 0;
            self.control.menu = Menu::MiniCommander;
            self.show_commander();
        } else if scancode == KEY_F8 || scancode == KEY_6 || scancode == KEY_F8_ALTERNATE
            || scancode == KEY_8 {
            self.control.menu = Menu::UnicodeMenu;
            unicode_menu(&mut self.screen, self.control.unicode);
        } else if scancode == KEY_ESC {
            clear(&mut self.screen, 0x00);
        }
    }

    /// Handles a key in the math menu.
    pub fn math_menu_key(&mut self, scancode: u8)
        requires
            old(self).wf(),
        ensures
            final(self).wf(),
            final(self)@ == old(self)@.on_math_menu(scancode),
    {
        if scancode == KEY_0 {
            main_menu(&mut self.control, &mut self.screen);
        } else if scancode == KEY_1 {
            self.show_example(0x0A, "Addition selected!", "2 + 2 = ", 0x34);
        } else if scancode == KEY_2 {
            self.show_example(0x0E, "Subtraction selected!", "5 - 3 = ", 0x32);
        } else if scancode == KEY_3 {
            self.show_example(0x0C, "Multiplication selected!", "3 * 4 = ", 0x3C);
        } else if scancode == KEY_4 {
            self.show_example(0x09, "Division selected!", "8 / 2 = ", 0x34);
        } else if scancode == KEY_9 {
            let random_number: u8 = (next_rand(&mut self.rng) % 100) as u8;
            let tens: u8 = random_number / 10;
            let ones: u8 = random_number % 10;
            print_text(&mut self.screen, 0, 10, 0x07, "Random Number: ");
            let mut col: u64 = 15;
            if tens > 0 {
                write_char(&mut self.screen, col, 10, 0x30 + tens, 0x07);
                col += 1;
            }
            write_char(&mut self.screen, col, 10, 0x30 + ones, 0x07);
        }
    }

    /// Handles a key in the character set menu.
    pub fn unicode_menu_key(&mut self, scancode: u8)
        requires
            old(self).wf(),
        ensures
            final(self).wf(),
            final(self)@ == old(self)@.on_unicode_menu(scancode),
    {
        if scancode == KEY_0 {
            main_menu(&mut self.control, &mut self.screen);
        } else if scancode == KEY_1 {
            clear(&mut self.screen, 0x00);
            print_text(&mut self.screen, 0, 5, 0x0C, "Tryb 720p wymaga VM86!");
            print_text(&mut self.screen, 0, 6, 0x0C, "W kernelu nie mozna uzywac INT 0x10");
            print_text(&mut self.screen, 0, 8, 0x0E, "Nacisnij 0 aby wrocic");
        }
    }

    /// Handles a key in the mini-commander.
    pub fn mini_commander_key(&mut self, scancode: u8) -> (action: Action)
        requires
            old(self).wf(),
        ensures
            final(self).wf(),
            final(self)@ == old(self)@.on_mini_commander(scancode).system,
            action@ == old(self)@.on_mini_commander(scancode).action,
    {
        if scancode == KEY_UP {
            if self.control.selection > 0 {
                self.control.selection -= 1;
            }
            self.refresh_list();
            Action::Continue
        } else if scancode == KEY_DOWN {
            if self.control.selection < 255 && self.control.selection + 1
                < self.control.file_count {
                self.control.selection += 1;
            }
            self.refresh_list();
            Action::Continue
        } else if scancode == KEY_F7 {
            draw_rect(&mut self.screen, 9, 7, 62, 10, 0x07);
            draw_rect(&mut self.screen, 10, 8, 60, 8, 0x01);
            print_text(&mut self.screen, 12, 9, 0x1F, " UTWORZ PLIK ");
            print_text(&mut self.screen, 12, 11, 0x1F, "Nazwa (8 znakow, A-Z/0-9):");
            print_text(&mut self.screen, 0, 24, 0x70, " NAME > ");
            self.control.context = CaptureContext::CreateFileName;
            self.control.input.clear();
            self.control.capturing = true;
            Action::Continue
        } else if scancode == KEY_ENTER {
            if self.control.file_count == 0 {
                print_text(&mut self.screen, 2, 22, 0x0E, "Brak plikow - uzyj F7 aby utworzyc");
                Action::Continue
            } else {
                match self.fs.entry(self.control.selection as usize) {
                    Some(e) => Action::OpenEditor(e.name),
                    None => Action::Continue,
                }
            }
        } else if scancode == KEY_ESC {
            main_menu(&mut self.control, &mut self.screen);
            Action::Continue
        } else {
            Action::Continue
        }
    }

    /// Handles a key while text is captured.
    pub fn input_capture_key(&mut self, scancode: u8)
        requires
            old(self).wf(),
        ensures
            final(self).wf(),
            final(self)@ == old(self)@.on_input_capture(scancode),
    {
        if scancode == KEY_ENTER {
            if self.control.input.len() > 0 {
                if self.control.context == CaptureContext::CreateFileName {
                    let name: [u8; 8] = file_name_from_input(self.control.input.as_slice());
                    fat16_create_file(&mut self.fs, &name);
                    self.control.capturing = false;
                    self.control.input.clear();
                    self.control.context = CaptureContext::FreeEcho;
                    self.control.menu = Menu::MiniCommander;
                    self.show_commander();
                } else {
                    print_text(&mut self.screen, 0, 22, 0x0E, "OSTATNI INPUT: ");
                    print_bytes(&mut self.screen, 15, 22, 0x0F, self.control.input.as_slice());
                    self.control.capturing = false;
                    self.control.input.clear();
                    clear_animated(&mut self.screen, 0, 24, 0x00, 100);
                }
            }
        } else if scancode == KEY_ESC {
            self.control.capturing = false;
            self.control.input.clear();
            clear_animated(&mut self.screen, 0, 24, 0x00, 100);
        } else if scancode == KEY_BACKSPACE {
            if self.control.input.len() > 0 {
                self.control.input.pop();
                let len: usize = self.control.input.len();
                write_char(&mut self.screen, 9 + len as u64, 24, BLANK, 0x70);
            }
        } else if scancode == KEY_HOME {
            self.control.selection = 0;
            self.control.capturing = false;
            self.control.menu = Menu::MiniCommander;
            self.show_commander();
        } else if scancode != KEY_ALT {
            let c: u8 = key_char(self.control.alt, scancode);
            if c != 0 {
                let len: usize = self.control.input.len();
                if len < INPUT_CAPACITY {
                    self.control.input.push(c);
                    write_char(&mut self.screen, 9 + len as u64, 24, c, 0x70);
                }
            }
        }
    }

    /// Takes note of a scancode that differs from the last one: records it,
    /// shows it in the corner of the page, and sets or clears the ALT latch.
    fn latch(&mut self, scancode: u8)
        requires
            old(self).wf(),
        ensures
            final(self).wf(),
            final(self)@ == old(self)@.latched(scancode),
    {
        self.control.last_scancode = scancode;
        write_char(&mut self.screen, 74, 0, 0x53, 0x0F);
        write_char(&mut self.screen, 75, 0, 0x43, 0x0F);
        write_char(&mut self.screen, 77, 0, hex_char(scancode / 16), 0x0E);
        write_char(&mut self.screen, 78, 0, hex_char(scancode % 16), 0x0E);
        if scancode == KEY_ALT {
            self.control.alt = true;
        } else if scancode == KEY_ALT_RELEASED {
            self.control.alt = false;
        }
    }

    /// Hands a make code to the handler of the current mode.
    fn handle(&mut self, scancode: u8, row: u64) -> (action: Action)
        requires
            old(self).wf(),
        ensures
            final(self).wf(),
            final(self)@ == old(self)@.handled(scancode, row).system,
            action@ == old(self)@.handled(scancode, row).action,
    {
        if self.control.capturing {
            self.input_capture_key(scancode);
            Action::Continue
        } else {
            match self.control.menu {
                Menu::MainMenu => {
                    self.main_menu_key(scancode, row);
                    Action::Continue
                },
                Menu::MathMenu => {
                    self.math_menu_key(scancode);
                    Action::Continue
                },
                Menu::UnicodeMenu => {
                    self.unicode_menu_key(scancode);
                    Action::Continue
                },
                Menu::MiniCommander => self.mini_commander_key(scancode),
            }
        }
    }

    /// Takes one scancode from the keyboard and moves the system on by it:
    /// [`SystemModel::dispatch`].
    ///
    /// `row` is the row on which the main menu prints its banners.
    pub fn poll_keyboard_unified(&mut self, scancode: u8, row: u64) -> (action: Action)
        requires
            old(self).wf(),
        ensures
            final(self).wf(),
            final(self)@ == old(self)@.dispatch(scancode, row).system,
            action@ == old(self)@.dispatch(scancode, row).action,
    {
        if scancode >= 0x80 {
            if scancode != self.control.last_scancode {
                self.latch(scancode);
            }
            self.control.last_scancode = 0;
            Action::Continue
        } else if scancode == self.control.last_scancode {
            Action::Continue
        } else {
            self.latch(scancode);
            let action = self.handle(scancode, row);
            if scancode == KEY_F5 {
                Action::Reboot
            } else {
                action
            }
        }
    }
}

} // verus!
