//! The screen of a pane: a terminal emulator that is fed what the pane's
//! program writes, and what it then shows.

use vstd::prelude::*;

verus! {

broadcast use vstd::string::group_string_axioms;

/// Which mouse events a program asked for.
#[derive(Debug, Clone, Copy, PartialEq, Eq, Structural)]
pub enum MouseProtocolMode {
    Off,
    Press,
    PressRelease,
    ButtonMotion,
    AnyMotion,
}

/// How a program wants mouse events written.
#[derive(Debug, Clone, Copy, PartialEq, Eq, Structural)]
pub enum MouseProtocolEncoding {
    Default,
    Utf8,
    Sgr,
}

/// A colour as a program names it: the terminal's own, one of the palette, or
/// its red, green and blue parts.
#[derive(Debug, Clone, Copy, PartialEq, Eq, Structural)]
pub enum TermColor {
    Default,
    Idx(u8),
    Rgb(u8, u8, u8),
}

/// `vt100::Color`, with its variants.
#[verifier::external_type_specification]
pub struct ExColor(vt100::Color);

/// The colour that `c` is.
pub open spec fn term_color(c: vt100::Color) -> TermColor {
    match c {
        vt100::Color::Default => TermColor::Default,
        vt100::Color::Idx(i) => TermColor::Idx(i),
        vt100::Color::Rgb(r, g, b) => TermColor::Rgb(r, g, b),
    }
}

fn color(c: vt100::Color) -> (r: TermColor)
    ensures
        r == term_color(c),
{
    match c {
        vt100::Color::Default => TermColor::Default,
        vt100::Color::Idx(i) => TermColor::Idx(i),
        vt100::Color::Rgb(r, g, b) => TermColor::Rgb(r, g, b),
    }
}

/// One cell of a screen.
#[derive(Debug, Clone, PartialEq)]
pub struct ScreenCell {
    pub text: String,
    /// The second half of a wide character.
    pub continuation: bool,
    pub fg: TermColor,
    pub bg: TermColor,
    pub bold: bool,
    pub dim: bool,
    pub italic: bool,
    pub underline: bool,
    pub inverse: bool,
}

/// What a cell shows: its text, whether it is the second half of a wide
/// character, its colours, and bold, dim, italic, underline and inverse.
pub type CellLook = (Seq<char>, bool, TermColor, TermColor, (bool, bool, bool, bool, bool));

impl View for ScreenCell {
    type V = CellLook;

    open spec fn view(&self) -> CellLook {
        (
            self.text@,
            self.continuation,
            self.fg,
            self.bg,
            (self.bold, self.dim, self.italic, self.underline, self.inverse),
        )
    }
}

/// A terminal emulator: a `vt100::Parser`, whose type parameter is bound by a
/// trait of that crate.
#[verifier::external_body]
pub struct Emulator {
    parser: vt100::Parser,
}

/// The rows, columns and lines of scrollback that an emulator was made with.
pub uninterp spec fn sized(e: Emulator) -> (u16, u16, usize);

/// The byte strings that an emulator was given, in order.
pub uninterp spec fn given(e: Emulator) -> Seq<Seq<u8>>;

/// `vt100::Screen::mouse_protocol_mode` of a terminal made so and fed so.
pub uninterp spec fn mouse_mode_after(made: (u16, u16, usize), fed: Seq<Seq<u8>>) -> MouseProtocolMode;

/// `vt100::Screen::mouse_protocol_encoding` of a terminal made so and fed so.
pub uninterp spec fn mouse_encoding_after(made: (u16, u16, usize), fed: Seq<Seq<u8>>) -> MouseProtocolEncoding;

/// `vt100::Screen::alternate_screen` of a terminal made so and fed so.
pub uninterp spec fn alternate_screen_after(made: (u16, u16, usize), fed: Seq<Seq<u8>>) -> bool;

/// `vt100::Screen::application_cursor` of a terminal made so and fed so.
pub uninterp spec fn application_cursor_after(made: (u16, u16, usize), fed: Seq<Seq<u8>>) -> bool;

/// `vt100::Screen::contents` of a terminal made so and fed so.
pub uninterp spec fn contents_after(made: (u16, u16, usize), fed: Seq<Seq<u8>>) -> Seq<char>;

/// `vt100::Screen::hide_cursor` of a terminal made so and fed so.
pub uninterp spec fn cursor_hidden_after(made: (u16, u16, usize), fed: Seq<Seq<u8>>) -> bool;

/// `vt100::Screen::cursor_position` of a terminal made so and fed so.
pub uninterp spec fn cursor_after(made: (u16, u16, usize), fed: Seq<Seq<u8>>) -> (u16, u16);

/// The cell that `vt100::Screen::cell` gives at a row and column of a terminal
/// made so and fed so, by what its getters tell.
pub uninterp spec fn cell_after(made: (u16, u16, usize), fed: Seq<Seq<u8>>, row: u16, col: u16) -> Option<CellLook>;

// ---- what fits -----------------------------------------------------------

/// What was read of a control sequence: its first marker or intermediate byte, or
/// 0; whether nothing was read yet, or its intermediate bytes were reached; how many
/// numbers are done, the first of them, and whether one of them is a 6 by itself;
/// and the number that is being read, and whether it follows a colon.
#[derive(Debug, Clone, Copy, PartialEq, Eq, Structural)]
pub struct Numbers {
    pub mark: u8,
    pub fresh: bool,
    pub spaced: bool,
    pub count: u8,
    pub first: u16,
    pub six: bool,
    pub value: u16,
    pub nested: bool,
}

/// What the bytes that came last are part of.
#[derive(Debug, Clone, Copy, PartialEq, Eq, Structural)]
pub enum Course {
    /// Text.
    Plain,
    /// A character, of which these bytes came.
    First(u8),
    Second(u8, u8),
    Third(u8, u8, u8),
    /// An escape sequence, before its intermediate bytes and after one.
    Escape,
    Spaced,
    /// A control sequence, and one that is not carried out.
    Sequence(Numbers),
    Void,
    /// A command to the operating system.
    Title,
    /// A device control string: at its start, among its numbers, after an
    /// intermediate byte, and in what it carries.
    Opening,
    Figures,
    Gap,
    Payload,
    /// Any other string, and a device control string that is not carried out.
    Mute,
}

/// Whether `c` is a string.
pub open spec fn in_string(c: Course) -> bool {
    match c {
        Course::Title | Course::Opening | Course::Figures | Course::Gap | Course::Payload
        | Course::Mute => true,
        _ => false,
    }
}

/// Whether `c` is text.
pub open spec fn in_text(c: Course) -> bool {
    match c {
        Course::Plain | Course::First(_) | Course::Second(_, _) | Course::Third(_, _, _) => true,
        _ => false,
    }
}

/// A control sequence of which nothing was read.
pub open spec fn no_numbers() -> Numbers {
    Numbers {
        mark: 0,
        fresh: true,
        spaced: false,
        count: 0,
        first: 0,
        six: false,
        value: 0,
        nested: false,
    }
}

/// How many numbers a control sequence can have.
pub const MOST_NUMBERS: u8 = 32;

/// `n` once the number that is being read is done, with a colon after it or not.
/// There is room for so many numbers and no more, so after the last of them a colon
/// joins nothing to it.
pub open spec fn number_done(n: Numbers, colon: bool) -> Numbers {
    if n.count >= MOST_NUMBERS {
        Numbers { fresh: false, ..n }
    } else {
        Numbers {
            fresh: false,
            count: (n.count + 1) as u8,
            first: if n.count == 0 {
                n.value
            } else {
                n.first
            },
            six: n.six || (n.value == 6 && !n.nested && (!colon || n.count + 1 == MOST_NUMBERS)),
            value: 0,
            nested: colon,
            ..n
        }
    }
}

/// `n` once it has read another digit.
pub open spec fn digit_read(n: Numbers, digit: int) -> Numbers {
    let value = n.value * 10 + digit;
    Numbers {
        fresh: false,
        value: if n.count >= MOST_NUMBERS {
            n.value
        } else if value > u16::MAX {
            u16::MAX
        } else {
            value as u16
        },
        ..n
    }
}

/// `n` once it has read a marker or an intermediate byte.
pub open spec fn marked(n: Numbers, b: u8) -> Numbers {
    Numbers {
        mark: if n.mark == 0 {
            b
        } else {
            n.mark
        },
        fresh: false,
        ..n
    }
}

/// What `b` is part of, after a control sequence.
pub open spec fn sequence_next(n: Numbers, b: u8) -> Course {
    if b < 0x20 || b >= 0x7f {
        Course::Sequence(n)
    } else if b < 0x30 {
        Course::Sequence(Numbers { spaced: true, ..marked(n, b) })
    } else if b >= 0x40 {
        Course::Plain
    } else if n.spaced || (b >= 0x3c && !n.fresh) {
        Course::Void
    } else if b >= 0x3c {
        Course::Sequence(marked(n, b))
    } else if b == 0x3a || b == 0x3b {
        Course::Sequence(number_done(n, b == 0x3a))
    } else {
        Course::Sequence(digit_read(n, b - 0x30))
    }
}

/// What `b` is part of, after an escape sequence that has no intermediate bytes
/// yet.
pub open spec fn escape_next(b: u8) -> Course {
    if b < 0x20 || b >= 0x7f {
        Course::Escape
    } else if b < 0x30 {
        Course::Spaced
    } else if b == 0x5b {
        Course::Sequence(no_numbers())
    } else if b == 0x5d {
        Course::Title
    } else if b == 0x50 {
        Course::Opening
    } else if b == 0x58 || b == 0x5e || b == 0x5f {
        Course::Mute
    } else {
        Course::Plain
    }
}

/// What `b` is part of, after the head of a device control string.
pub open spec fn control_next(c: Course, b: u8) -> Course {
    if b < 0x20 || b >= 0x7f {
        c
    } else if b < 0x30 {
        Course::Gap
    } else if b >= 0x40 {
        Course::Payload
    } else if c == Course::Gap || (c == Course::Figures && b >= 0x3c) {
        Course::Mute
    } else {
        Course::Figures
    }
}

/// What `b` is part of, after text.
pub open spec fn text_next(c: Course, b: u8) -> Course {
    if b >= 0xc0 {
        Course::First(b)
    } else if b >= 0x80 {
        match c {
            Course::First(lead) if lead >= 0xe0 => Course::Second(lead, b),
            Course::Second(lead, second) if lead >= 0xf0 => Course::Third(lead, second, b),
            _ => Course::Plain,
        }
    } else {
        Course::Plain
    }
}

/// What `b` is part of, after `c`.
pub open spec fn course_next(c: Course, b: u8) -> Course {
    if b == 0x1b {
        Course::Escape
    } else if b == 0x18 || b == 0x1a {
        Course::Plain
    } else {
        match c {
            Course::Escape => escape_next(b),
            Course::Spaced => if 0x30 <= b < 0x7f {
                Course::Plain
            } else {
                Course::Spaced
            },
            Course::Sequence(n) => sequence_next(n, b),
            Course::Void => if 0x40 <= b < 0x7f {
                Course::Plain
            } else {
                Course::Void
            },
            Course::Title => if b == 0x07 {
                Course::Plain
            } else {
                Course::Title
            },
            Course::Opening | Course::Figures | Course::Gap => control_next(c, b),
            Course::Payload => if b == 0x9c {
                Course::Plain
            } else {
                Course::Payload
            },
            Course::Mute => Course::Mute,
            _ => text_next(c, b),
        }
    }
}

/// What follows `bytes` is part of, after `c`.
pub open spec fn course_through(c: Course, bytes: Seq<u8>) -> Course
    decreases bytes.len(),
{
    if bytes.len() == 0 {
        c
    } else {
        course_next(course_through(c, bytes.drop_last()), bytes.last())
    }
}

/// What follows the byte strings `fed` is part of.
pub open spec fn course_after(fed: Seq<Seq<u8>>) -> Course
    decreases fed.len(),
{
    if fed.len() == 0 {
        Course::Plain
    } else {
        course_through(course_after(fed.drop_last()), fed.last())
    }
}

/// The bytes of the character that `b` completes after `c`.
pub open spec fn spelled(c: Course, b: u8) -> Option<Seq<u8>> {
    match c {
        Course::First(lead) if lead < 0xe0 => Some(seq![lead, b]),
        Course::Second(lead, second) if lead < 0xf0 => Some(seq![lead, second, b]),
        Course::Third(lead, second, third) => Some(seq![lead, second, third, b]),
        _ => None,
    }
}

/// The size of a screen that shows how wide a character is.
pub open spec fn measure_size() -> (u16, u16, usize) {
    (2, 8, 0)
}

/// How many columns the character with these bytes takes: as far as it moves the
/// cursor of an empty screen, except that one character takes three and moves it by
/// two.
pub open spec fn character_width(bytes: Seq<u8>) -> int {
    if bytes == seq![0xe1u8, 0x9fu8, 0x98u8] {
        3
    } else {
        cursor_after(measure_size(), seq![bytes]).1 as int
    }
}

/// How many columns the byte `b` fills after `c`: none where it completes no
/// character.
pub open spec fn filled(c: Course, b: u8) -> int {
    if !in_text(c) || b < 0x20 || b == 0x7f || b >= 0xc0 {
        0
    } else if b < 0x80 {
        1
    } else {
        match spelled(c, b) {
            Some(bytes) => character_width(bytes),
            None => 0,
        }
    }
}

/// Whether the control sequence that `b` ends goes by the number of columns: to
/// insert characters, to move the cursor within a row or to one, to erase a row up
/// to the cursor, and to change where rows are counted from.
pub open spec fn by_columns(n: Numbers, b: u8) -> bool {
    let done = number_done(n, false);
    let erases = (b == 0x4a || b == 0x4b) && done.first == 1;
    if n.mark == 0 {
        b == 0x40 || b == 0x43 || (0x45 <= b <= 0x48) || erases
    } else {
        n.mark == 0x3f && (erases || ((b == 0x68 || b == 0x6c) && done.six))
    }
}

/// Whether a screen is large enough for whatever is written to it: with a row to
/// wrap to, room for the widest character, and a tab stop beyond every column.
pub open spec fn roomy(made: (u16, u16, usize)) -> bool {
    made.0 >= 2 && 3 <= made.1 <= 65527
}

/// Whether an emulator can take the byte `b` on a screen of that size, with its
/// cursor in column `col`: a character needs its columns, and on a screen of one row
/// they must be left in it; a tab stop lies 8 columns further; and without columns
/// there is nowhere to go in a row.
pub open spec fn byte_fits(made: (u16, u16, usize), col: u16, c: Course, b: u8) -> bool {
    let width = filled(c, b);
    &&& width <= made.1
    &&& width == 0 || made.0 >= 2 || col + width <= made.1
    &&& b == 0x09 && !in_string(c) ==> col <= 65527
    &&& made.1 == 0 ==> !((b == 0x09 || b == 0x0d) && !in_string(c))
    &&& made.1 == 0 ==> !(c matches Course::Sequence(n) && 0x40 <= b < 0x7f && by_columns(n, b))
}

/// The byte strings that a small screen was fed once `bytes` came after `fed`:
/// each byte by itself, but for those it has no room for, which are left out.
pub open spec fn fed_singly(made: (u16, u16, usize), fed: Seq<Seq<u8>>, bytes: Seq<u8>) -> Seq<
    Seq<u8>,
>
    decreases bytes.len(),
{
    if bytes.len() == 0 {
        fed
    } else {
        let before = fed_singly(made, fed, bytes.drop_last());
        let b = bytes.last();
        if byte_fits(made, cursor_after(made, before).1, course_after(before), b) {
            before.push(seq![b])
        } else {
            before
        }
    }
}

/// The byte strings that a screen was fed once `bytes` came after `fed`: all of
/// `bytes` where it is large enough, else each byte that there is room for.
pub open spec fn taken(made: (u16, u16, usize), fed: Seq<Seq<u8>>, bytes: Seq<u8>) -> Seq<
    Seq<u8>,
> {
    if roomy(made) {
        fed.push(bytes)
    } else {
        fed_singly(made, fed, bytes)
    }
}

fn fresh_numbers() -> (r: Numbers)
    ensures
        r == no_numbers(),
{
    Numbers {
        mark: 0,
        fresh: true,
        spaced: false,
        count: 0,
        first: 0,
        six: false,
        value: 0,
        nested: false,
    }
}

fn end_number(n: Numbers, colon: bool) -> (r: Numbers)
    ensures
        r == number_done(n, colon),
{
    if n.count >= MOST_NUMBERS {
        return Numbers { fresh: false, ..n };
    }
    Numbers {
        fresh: false,
        count: n.count + 1,
        first: if n.count == 0 {
            n.value
        } else {
            n.first
        },
        six: n.six || (n.value == 6 && !n.nested && (!colon || n.count + 1 == MOST_NUMBERS)),
        value: 0,
        nested: colon,
        ..n
    }
}

fn add_digit(n: Numbers, digit: u16) -> (r: Numbers)
    requires
        digit < 10,
    ensures
        r == digit_read(n, digit as int),
{
    let value: u16 = if n.count >= MOST_NUMBERS {
        n.value
    } else {
        let value: u32 = n.value as u32 * 10 + digit as u32;
        if value > 65535 {
            65535
        } else {
            value as u16
        }
    };
    Numbers { fresh: false, value, ..n }
}

fn add_mark(n: Numbers, b: u8) -> (r: Numbers)
    ensures
        r == marked(n, b),
{
    let mark: u8 = if n.mark == 0 {
        b
    } else {
        n.mark
    };
    Numbers { mark, fresh: false, ..n }
}

fn after_sequence(n: Numbers, b: u8) -> (r: Course)
    ensures
        r == sequence_next(n, b),
{
    if b < 0x20 || b >= 0x7f {
        Course::Sequence(n)
    } else if b < 0x30 {
        Course::Sequence(Numbers { spaced: true, ..add_mark(n, b) })
    } else if b >= 0x40 {
        Course::Plain
    } else if n.spaced || (b >= 0x3c && !n.fresh) {
        Course::Void
    } else if b >= 0x3c {
        Course::Sequence(add_mark(n, b))
    } else if b == 0x3a || b == 0x3b {
        Course::Sequence(end_number(n, b == 0x3a))
    } else {
        Course::Sequence(add_digit(n, (b - 0x30) as u16))
    }
}

fn after_escape(b: u8) -> (r: Course)
    ensures
        r == escape_next(b),
{
    if b < 0x20 || b >= 0x7f {
        Course::Escape
    } else if b < 0x30 {
        Course::Spaced
    } else if b == 0x5b {
        Course::Sequence(fresh_numbers())
    } else if b == 0x5d {
        Course::Title
    } else if b == 0x50 {
        Course::Opening
    } else if b == 0x58 || b == 0x5e || b == 0x5f {
        Course::Mute
    } else {
        Course::Plain
    }
}

fn after_control(c: Course, b: u8) -> (r: Course)
    ensures
        r == control_next(c, b),
{
    if b < 0x20 || b >= 0x7f {
        c
    } else if b < 0x30 {
        Course::Gap
    } else if b >= 0x40 {
        Course::Payload
    } else if matches!(c, Course::Gap) || (matches!(c, Course::Figures) && b >= 0x3c) {
        Course::Mute
    } else {
        Course::Figures
    }
}

fn after_text(c: Course, b: u8) -> (r: Course)
    ensures
        r == text_next(c, b),
{
    if b >= 0xc0 {
        Course::First(b)
    } else if b >= 0x80 {
        match c {
            Course::First(lead) => if lead >= 0xe0 {
                Course::Second(lead, b)
            } else {
                Course::Plain
            },
            Course::Second(lead, second) => if lead >= 0xf0 {
                Course::Third(lead, second, b)
            } else {
                Course::Plain
            },
            _ => Course::Plain,
        }
    } else {
        Course::Plain
    }
}

/// What a byte is part of, after `c`.
fn next_course(c: Course, b: u8) -> (r: Course)
    ensures
        r == course_next(c, b),
{
    if b == 0x1b {
        return Course::Escape;
    }
    if b == 0x18 || b == 0x1a {
        return Course::Plain;
    }
    match c {
        Course::Escape => after_escape(b),
        Course::Spaced => if 0x30 <= b && b < 0x7f {
            Course::Plain
        } else {
            Course::Spaced
        },
        Course::Sequence(n) => after_sequence(n, b),
        Course::Void => if 0x40 <= b && b < 0x7f {
            Course::Plain
        } else {
            Course::Void
        },
        Course::Title => if b == 0x07 {
            Course::Plain
        } else {
            Course::Title
        },
        Course::Opening | Course::Figures | Course::Gap => after_control(c, b),
        Course::Payload => if b == 0x9c {
            Course::Plain
        } else {
            Course::Payload
        },
        Course::Mute => Course::Mute,
        _ => after_text(c, b),
    }
}

/// How many columns a character takes.
fn measure(bytes: &[u8]) -> (r: u16)
    ensures
        r == character_width(bytes@),
{
    if bytes.len() == 3 && bytes[0] == 0xe1 && bytes[1] == 0x9f && bytes[2] == 0x98 {
        assert(bytes@ =~= seq![0xe1u8, 0x9fu8, 0x98u8]);
        return 3;
    }
    let mut emulator: Emulator = Emulator::new(2, 8, 0);
    emulator.process(bytes);
    assert(given(emulator) =~= seq![bytes@]);
    emulator.cursor_position().1
}

/// How many columns a byte fills after `c`.
fn fill(c: Course, b: u8) -> (r: u16)
    ensures
        r == filled(c, b),
{
    let text: bool = matches!(
        c,
        Course::Plain | Course::First(_) | Course::Second(_, _) | Course::Third(_, _, _)
    );
    if !text || b < 0x20 || b == 0x7f || b >= 0xc0 {
        return 0;
    }
    if b < 0x80 {
        return 1;
    }
    match c {
        Course::First(lead) => if lead < 0xe0 {
            let bytes: [u8; 2] = [lead, b];
            assert(bytes@ =~= seq![lead, b]);
            measure(&bytes)
        } else {
            0
        },
        Course::Second(lead, second) => if lead < 0xf0 {
            let bytes: [u8; 3] = [lead, second, b];
            assert(bytes@ =~= seq![lead, second, b]);
            measure(&bytes)
        } else {
            0
        },
        Course::Third(lead, second, third) => {
            let bytes: [u8; 4] = [lead, second, third, b];
            assert(bytes@ =~= seq![lead, second, third, b]);
            measure(&bytes)
        },
        _ => 0,
    }
}

fn goes_by_columns(n: Numbers, b: u8) -> (r: bool)
    ensures
        r == by_columns(n, b),
{
    let done: Numbers = end_number(n, false);
    let erases: bool = (b == 0x4a || b == 0x4b) && done.first == 1;
    if n.mark == 0 {
        b == 0x40 || b == 0x43 || (0x45 <= b && b <= 0x48) || erases
    } else {
        n.mark == 0x3f && (erases || ((b == 0x68 || b == 0x6c) && done.six))
    }
}

fn has_room(rows: u16, cols: u16, col: u16, c: Course, b: u8) -> (r: bool)
    ensures
        forall|scrollback: usize| r == #[trigger] byte_fits((rows, cols, scrollback), col, c, b),
{
    let carried_out: bool = !matches!(
        c,
        Course::Title | Course::Opening | Course::Figures | Course::Gap | Course::Payload
        | Course::Mute
    );
    if b == 0x09 && carried_out && (col > 65527 || cols == 0) {
        return false;
    }
    if cols == 0 {
        if b == 0x0d && carried_out {
            return false;
        }
        if let Course::Sequence(n) = c {
            if 0x40 <= b && b < 0x7f && goes_by_columns(n, b) {
                return false;
            }
        }
    }
    let width: u16 = fill(c, b);
    width <= cols && (width == 0 || rows >= 2 || col <= cols - width)
}

/// A pane's screen: an emulator, and for a small one what its next byte would be
/// part of.
pub struct Terminal {
    emulator: Emulator,
    course: Course,
}

/// The rows, columns and lines of scrollback that a screen was made with.
pub closed spec fn made_with(t: Terminal) -> (u16, u16, usize) {
    sized(t.emulator)
}

/// The byte strings that a screen was fed, in order.
pub closed spec fn fed(t: Terminal) -> Seq<Seq<u8>> {
    given(t.emulator)
}

impl Terminal {
    #[verifier::type_invariant]
    spec fn on_course(self) -> bool {
        roomy(sized(self.emulator)) || self.course == course_after(given(self.emulator))
    }

    /// An empty screen of that size.
    pub(crate) fn new(rows: u16, cols: u16, scrollback: usize) -> (r: Terminal)
        requires
            rows >= 1,
        ensures
            made_with(r) == (rows, cols, scrollback),
            fed(r) == Seq::<Seq<u8>>::empty(),
    {
        Terminal { emulator: Emulator::new(rows, cols, scrollback), course: Course::Plain }
    }

    /// The screen once `bytes` were written to it.
    pub(crate) fn take(self, bytes: &[u8]) -> (r: Terminal)
        ensures
            made_with(r) == made_with(self),
            fed(r) == taken(made_with(self), fed(self), bytes@),
    {
        proof {
            use_type_invariant(&self);
        }
        let ghost made = sized(self.emulator);
        let ghost start = given(self.emulator);
        let mut emulator: Emulator = self.emulator;
        let mut course: Course = self.course;
        let (rows, cols) = emulator.size();
        if rows >= 2 && 3 <= cols && cols <= 65527 {
            emulator.process(bytes);
            return Terminal { emulator, course };
        }
        assert(bytes@.take(0) == Seq::<u8>::empty());
        for i in 0..bytes.len()
            invariant
                rows == made.0,
                cols == made.1,
                !roomy(made),
                sized(emulator) == made,
                given(emulator) == fed_singly(made, start, bytes@.take(i as int)),
                course == course_after(given(emulator)),
        {
            let b: u8 = bytes[i];
            let ghost before = given(emulator);
            assert(bytes@.take(i + 1).drop_last() == bytes@.take(i as int));
            assert(made == (rows, cols, made.2));
            let (_, col) = emulator.cursor_position();
            if has_room(rows, cols, col, course, b) {
                let one: [u8; 1] = [b];
                assert(one@ == seq![b]);
                emulator.process(&one);
                assert(given(emulator) == before.push(seq![b]));
                assert(before.push(seq![b]).drop_last() == before);
                assert(seq![b].drop_last() == Seq::<u8>::empty());
                assert(course_through(course, seq![b].drop_last()) == course);
                course = next_course(course, b);
            }
        }
        assert(bytes@.take(bytes@.len() as int) == bytes@);
        Terminal { emulator, course }
    }

    /// The emulator that shows it.
    pub(crate) fn screen(&self) -> (r: &Emulator)
        ensures
            sized(*r) == made_with(*self),
            given(*r) == fed(*self),
    {
        &self.emulator
    }
}

impl Emulator {
    /// `vt100::Parser::new`: an emulator of that size that was given nothing. It
    /// subtracts 1 from the number of rows, so there must be one.
    #[verifier::external_body]
    fn new(rows: u16, cols: u16, scrollback: usize) -> (r: Emulator)
        requires
            rows >= 1,
        ensures
            sized(r) == (rows, cols, scrollback),
            given(r) == Seq::<Seq<u8>>::empty(),
    {
        Emulator { parser: vt100::Parser::new(rows, cols, scrollback) }
    }

    /// `vt100::Parser::process`: gives it `bytes`. What can go wrong in it is
    /// arithmetic. It draws a character once its last byte came, and subtracts the
    /// character's width, at most 3, from the number of columns. A character that
    /// reaches past the last column goes to the next row; at the lowest row 1 is
    /// subtracted from that row's number, which must not be 0. A tab adds 8 to the
    /// column, which is at most one past the last, in 16 bits. A tab, a carriage
    /// return and some control sequences subtract 1 from the number of columns. None
    /// of this fails on a screen of at least two rows and 3 to 65527 columns. Another
    /// takes single bytes, of which what came before tells what they do: within a
    /// sequence or a string nothing is drawn, and of malformed text nothing either.
    #[verifier::external_body]
    fn process(&mut self, bytes: &[u8])
        requires
            roomy(sized(*old(self))) || (bytes@.len() == 1 && byte_fits(
                sized(*old(self)),
                cursor_after(sized(*old(self)), given(*old(self))).1,
                course_after(given(*old(self))),
                bytes@[0],
            )),
        ensures
            sized(*final(self)) == sized(*old(self)),
            given(*final(self)) == given(*old(self)).push(bytes@),
    {
        self.parser.process(bytes)
    }

    /// `vt100::Screen::size`: the rows and columns that the terminal was made
    /// with, since nothing it is fed changes them.
    #[verifier::external_body]
    pub(crate) fn size(&self) -> (r: (u16, u16))
        ensures
            r.0 == sized(*self).0,
            r.1 == sized(*self).1,
    {
        self.parser.screen().size()
    }

    /// `vt100::Screen::mouse_protocol_mode`: decided by how the terminal was
    /// made and what it was fed.
    #[verifier::external_body]
    pub(crate) fn mouse_protocol_mode(&self) -> (r: MouseProtocolMode)
        ensures
            r == mouse_mode_after(sized(*self), given(*self)),
    {
        match self.parser.screen().mouse_protocol_mode() {
            vt100::MouseProtocolMode::None => MouseProtocolMode::Off,
            vt100::MouseProtocolMode::Press => MouseProtocolMode::Press,
            vt100::MouseProtocolMode::PressRelease => MouseProtocolMode::PressRelease,
            vt100::MouseProtocolMode::ButtonMotion => MouseProtocolMode::ButtonMotion,
            vt100::MouseProtocolMode::AnyMotion => MouseProtocolMode::AnyMotion,
        }
    }

    /// `vt100::Screen::mouse_protocol_encoding`: decided by how the terminal
    /// was made and what it was fed.
    #[verifier::external_body]
    pub(crate) fn mouse_protocol_encoding(&self) -> (r: MouseProtocolEncoding)
        ensures
            r == mouse_encoding_after(sized(*self), given(*self)),
    {
        match self.parser.screen().mouse_protocol_encoding() {
            vt100::MouseProtocolEncoding::Default => MouseProtocolEncoding::Default,
            vt100::MouseProtocolEncoding::Utf8 => MouseProtocolEncoding::Utf8,
            vt100::MouseProtocolEncoding::Sgr => MouseProtocolEncoding::Sgr,
        }
    }

    /// `vt100::Screen::alternate_screen`: decided by how the terminal was made
    /// and what it was fed.
    #[verifier::external_body]
    pub(crate) fn alternate_screen(&self) -> (r: bool)
        ensures
            r == alternate_screen_after(sized(*self), given(*self)),
    {
        self.parser.screen().alternate_screen()
    }

    /// `vt100::Screen::application_cursor`: decided by how the terminal was
    /// made and what it was fed.
    #[verifier::external_body]
    pub(crate) fn application_cursor(&self) -> (r: bool)
        ensures
            r == application_cursor_after(sized(*self), given(*self)),
    {
        self.parser.screen().application_cursor()
    }

    /// `vt100::Screen::contents`: decided by how the terminal was made and what
    /// it was fed.
    #[verifier::external_body]
    pub(crate) fn contents(&self) -> (r: String)
        ensures
            r@ == contents_after(sized(*self), given(*self)),
    {
        self.parser.screen().contents()
    }

    /// `vt100::Screen::hide_cursor`: decided by how the terminal was made and
    /// what it was fed.
    #[verifier::external_body]
    pub(crate) fn hide_cursor(&self) -> (r: bool)
        ensures
            r == cursor_hidden_after(sized(*self), given(*self)),
    {
        self.parser.screen().hide_cursor()
    }

    /// `vt100::Screen::cursor_position`: the row and column, decided by how the
    /// terminal was made and what it was fed.
    #[verifier::external_body]
    pub(crate) fn cursor_position(&self) -> (r: (u16, u16))
        ensures
            r == cursor_after(sized(*self), given(*self)),
    {
        self.parser.screen().cursor_position()
    }

    /// `vt100::Screen::cell` with the cell's getters: decided by how the
    /// terminal was made, what it was fed, and the place.
    #[verifier::external_body]
    pub(crate) fn cell(&self, row: u16, col: u16) -> (r: Option<ScreenCell>)
        ensures
            (match r {
                Some(c) => Some(c@),
                None => None,
            }) == cell_after(sized(*self), given(*self), row, col),
    {
        let c = self.parser.screen().cell(row, col)?;
        Some(ScreenCell {
            text: c.contents().to_string(),
            continuation: c.is_wide_continuation(),
            fg: color(c.fgcolor()),
            bg: color(c.bgcolor()),
            bold: c.bold(),
            dim: c.dim(),
            italic: c.italic(),
            underline: c.underline(),
            inverse: c.inverse(),
        })
    }
}

// ---- laws ----------------------------------------------------------------

/// A colour is taken over as the program gave it: no two become one.
pub proof fn colours_are_taken_over(a: vt100::Color, b: vt100::Color)
    ensures
        term_color(a) == term_color(b) ==> a == b,
        a matches vt100::Color::Idx(i) ==> term_color(a) == TermColor::Idx(i),
        a matches vt100::Color::Rgb(x, y, z) ==> term_color(a) == TermColor::Rgb(x, y, z),
        a == vt100::Color::Default ==> term_color(a) == TermColor::Default,
{
}

/// A screen with room takes all that is written to it, at once and unchanged; any other
/// takes nothing but bytes that were written, each by itself.
pub proof fn screens_take_what_is_written(
    made: (u16, u16, usize),
    fed: Seq<Seq<u8>>,
    bytes: Seq<u8>,
)
    ensures
        made.0 >= 2 && 3 <= made.1 <= 65527 ==> taken(made, fed, bytes) == fed.push(bytes),
        !(made.0 >= 2 && 3 <= made.1 <= 65527) ==> {
            let t = taken(made, fed, bytes);
            &&& fed.len() <= t.len() <= fed.len() + bytes.len()
            &&& t.take(fed.len() as int) == fed
            &&& forall|i: int|
                fed.len() <= i < t.len() ==> (#[trigger] t[i]).len() == 1 && bytes.contains(t[i][0])
        },
{
    if !roomy(made) {
        single_bytes(made, fed, bytes);
    }
}

proof fn single_bytes(made: (u16, u16, usize), fed: Seq<Seq<u8>>, bytes: Seq<u8>)
    ensures
        ({
            let t = fed_singly(made, fed, bytes);
            &&& fed.len() <= t.len() <= fed.len() + bytes.len()
            &&& t.take(fed.len() as int) =~= fed
            &&& forall|i: int|
                fed.len() <= i < t.len() ==> (#[trigger] t[i]).len() == 1 && bytes.contains(t[i][0])
        }),
    decreases bytes.len(),
{
    if bytes.len() > 0 {
        let less = bytes.drop_last();
        single_bytes(made, fed, less);
        let before = fed_singly(made, fed, less);
        let t = fed_singly(made, fed, bytes);
        assert(t.take(fed.len() as int) =~= before.take(fed.len() as int));
        assert forall|i: int| fed.len() <= i < t.len() implies (#[trigger] t[i]).len() == 1
            && bytes.contains(t[i][0]) by {
            if i < before.len() {
                assert(t[i] == before[i]);
                let k = choose|k: int| 0 <= k < less.len() && less[k] == before[i][0];
                assert(bytes[k] == t[i][0]);
            } else {
                assert(bytes[bytes.len() - 1] == t[i][0]);
            }
        }
    }
}

/// On a screen of one row, what fits is what leaves room for itself: a letter is taken
/// just where a column is left, and control characters always.
pub proof fn one_row_takes_what_it_has_room_for(cols: u16, scrollback: usize, col: u16, b: u8)
    requires
        cols > 0,
    ensures
        0x20 <= b < 0x7f ==> byte_fits((1, cols, scrollback), col, Course::Plain, b) == (col < cols),
        b < 0x20 && b != 9 ==> byte_fits((1, cols, scrollback), col, Course::Plain, b),
{
}

} // verus!
