//! The bytes that a terminal sends for keys and wheel ticks.

use vstd::prelude::*;
use vstd::utf8::encode_utf8;

use crate::key::{KeyCode, KeyEvent, KeyModifiers};
use crate::screen::MouseProtocolEncoding;

verus! {

broadcast use vstd::string::group_string_axioms;

// ---- text and numbers as bytes -------------------------------------------

/// The decimal digits of `n` as ASCII bytes.
pub open spec fn digit_bytes(n: nat) -> Seq<u8>
    decreases n,
{
    if n < 10 {
        seq![(48 + n) as u8]
    } else {
        digit_bytes(n / 10).push((48 + n % 10) as u8)
    }
}

/// Append the digits of `n`.
fn push_number(out: &mut Vec<u8>, n: u32)
    ensures
        final(out)@ == old(out)@ + digit_bytes(n as nat),
    decreases n,
{
    let ghost start = out@;
    if n >= 10 {
        push_number(out, n / 10);
    }
    out.push(48 + (n % 10) as u8);
    assert(out@ == start + digit_bytes(n as nat));
}

/// Append the UTF-8 bytes of `s`.
pub(crate) fn push_text(out: &mut Vec<u8>, s: &str)
    ensures
        final(out)@ == old(out)@ + encode_utf8(s@),
{
    let bytes: &[u8] = s.as_bytes();
    let ghost start = out@;
    for i in 0..bytes.len()
        invariant
            out@ == start + bytes@.take(i as int),
    {
        out.push(bytes[i]);
    }
    assert(bytes@.take(bytes@.len() as int) == bytes@);
}

/// Append the UTF-8 bytes of `c`.
fn push_char(out: &mut Vec<u8>, c: char)
    ensures
        final(out)@ == old(out)@ + encode_utf8(seq![c]),
{
    let mut s: String = String::new();
    s.push(c);
    assert(s@ == seq![c]);
    push_text(out, s.as_str());
}

// ---- keys ----------------------------------------------------------------

/// The C0 control byte of Ctrl with `c`, if it has one.
pub open spec fn control_of(c: char) -> Option<u8> {
    if 'a' <= c <= 'z' {
        Some((c as u8 - 96) as u8)
    } else if '@' <= c <= '_' {
        Some((c as u8 - 64) as u8)
    } else if c == ' ' {
        Some(0)
    } else if c == '?' {
        Some(0x7f)
    } else {
        None
    }
}

/// The bytes of a character: Alt puts an escape before it, and Ctrl takes its
/// control byte where it has one.
pub open spec fn char_bytes(c: char, ctrl: bool, alt: bool) -> Seq<u8> {
    let lead: Seq<u8> = if alt {
        seq![0x1b]
    } else {
        Seq::empty()
    };
    lead + (if ctrl && control_of(c) is Some {
        seq![control_of(c)->0]
    } else {
        encode_utf8(seq![c])
    })
}

/// The xterm modifier parameter: 1, and 1 for Shift, 2 for Alt, 4 for Ctrl.
pub open spec fn param_of(m: KeyModifiers) -> nat {
    1 + (if m.shift {
        1nat
    } else {
        0
    }) + (if m.alt {
        2nat
    } else {
        0
    }) + (if m.control {
        4nat
    } else {
        0
    })
}

/// `ESC [ final`, or with modifiers `ESC [ 1 ; param final`.
pub open spec fn final_bytes(final_byte: u8, param: nat) -> Seq<u8> {
    if param == 1 {
        seq![0x1b, 0x5b, final_byte]
    } else {
        seq![0x1b, 0x5b, 0x31, 0x3b] + digit_bytes(param) + seq![final_byte]
    }
}

/// `ESC [ num ~`, or with modifiers `ESC [ num ; param ~`.
pub open spec fn tilde_bytes(num: nat, param: nat) -> Seq<u8> {
    if param == 1 {
        seq![0x1b, 0x5b] + digit_bytes(num) + seq![0x7e]
    } else {
        seq![0x1b, 0x5b] + digit_bytes(num) + seq![0x3b] + digit_bytes(param) + seq![0x7e]
    }
}

/// The number that stands for function key `n` (from 5 to 12) in its sequence.
pub open spec fn function_number(n: u8) -> nat {
    if n == 5 {
        15
    } else if n <= 10 {
        (n + 11) as nat
    } else {
        (n + 12) as nat
    }
}

/// The bytes of function key `n`; keys past 12 and key 0 have none.
pub open spec fn function_bytes(n: u8, param: nat) -> Option<Seq<u8>> {
    if 1 <= n <= 4 {
        if param == 1 {
            Some(seq![0x1b, 0x4f, (0x4f + n) as u8])
        } else {
            Some(final_bytes((0x4f + n) as u8, param))
        }
    } else if 5 <= n <= 12 {
        Some(tilde_bytes(function_number(n), param))
    } else {
        None
    }
}

/// The bytes that a terminal sends for `key`; nothing for keys without any.
pub open spec fn key_bytes(key: KeyEvent) -> Option<Seq<u8>> {
    let param = param_of(key.modifiers);
    match key.code {
        KeyCode::Char(c) => Some(char_bytes(c, key.modifiers.control, key.modifiers.alt)),
        KeyCode::Enter => Some(seq![0x0d]),
        KeyCode::Tab => Some(seq![0x09]),
        KeyCode::BackTab => Some(seq![0x1b, 0x5b, 0x5a]),
        KeyCode::Backspace => Some(seq![0x7f]),
        KeyCode::Esc => Some(seq![0x1b]),
        KeyCode::Up => Some(final_bytes(0x41, param)),
        KeyCode::Down => Some(final_bytes(0x42, param)),
        KeyCode::Right => Some(final_bytes(0x43, param)),
        KeyCode::Left => Some(final_bytes(0x44, param)),
        KeyCode::Home => Some(final_bytes(0x48, param)),
        KeyCode::End => Some(final_bytes(0x46, param)),
        KeyCode::Insert => Some(tilde_bytes(2, param)),
        KeyCode::Delete => Some(tilde_bytes(3, param)),
        KeyCode::PageUp => Some(tilde_bytes(5, param)),
        KeyCode::PageDown => Some(tilde_bytes(6, param)),
        KeyCode::F(n) => function_bytes(n, param),
        _ => None,
    }
}

/// The bytes that a terminal sends for `key`, or `None` when it has none
/// (modifiers pressed on their own, unmapped function keys).
pub fn encode_key(key: KeyEvent) -> (r: Option<Vec<u8>>)
    ensures
        (match r {
            Some(bytes) => Some(bytes@),
            None => None,
        }) == key_bytes(key),
{
    let param: u32 = modifier_param(key.modifiers);
    let bytes: Vec<u8> = match key.code {
        KeyCode::Char(c) => encode_char(c, key.modifiers.control, key.modifiers.alt),
        KeyCode::Enter => vec![0x0d],
        KeyCode::Tab => vec![0x09],
        KeyCode::BackTab => vec![0x1b, 0x5b, 0x5a],
        KeyCode::Backspace => vec![0x7f],
        KeyCode::Esc => vec![0x1b],
        KeyCode::Up => csi_final(0x41, param),
        KeyCode::Down => csi_final(0x42, param),
        KeyCode::Right => csi_final(0x43, param),
        KeyCode::Left => csi_final(0x44, param),
        KeyCode::Home => csi_final(0x48, param),
        KeyCode::End => csi_final(0x46, param),
        KeyCode::Insert => csi_tilde(2, param),
        KeyCode::Delete => csi_tilde(3, param),
        KeyCode::PageUp => csi_tilde(5, param),
        KeyCode::PageDown => csi_tilde(6, param),
        KeyCode::F(n) => {
            return function_key(n, param);
        },
        _ => {
            return None;
        },
    };
    Some(bytes)
}

/// The bytes of a character with Ctrl and Alt held or not.
pub fn encode_char(c: char, ctrl: bool, alt: bool) -> (r: Vec<u8>)
    ensures
        r@ == char_bytes(c, ctrl, alt),
{
    let mut out: Vec<u8> = Vec::new();
    if alt {
        out.push(0x1b);
    }
    let ghost lead = out@;
    if ctrl {
        match control_byte(c) {
            Some(b) => {
                out.push(b);
                assert(out@ == lead + seq![b]);
                return out;
            },
            None => {},
        }
    }
    push_char(&mut out, c);
    out
}

/// The C0 control byte of Ctrl with `c`, if it has one.
pub fn control_byte(c: char) -> (r: Option<u8>)
    ensures
        r == control_of(c),
{
    let n: u32 = c as u32;
    if 97 <= n && n <= 122 {
        Some(n as u8 - 96)
    } else if 64 <= n && n <= 95 {
        Some(n as u8 - 64)
    } else if c == ' ' {
        Some(0)
    } else if c == '?' {
        Some(0x7f)
    } else {
        None
    }
}

fn modifier_param(m: KeyModifiers) -> (r: u32)
    ensures
        r == param_of(m),
        1 <= r <= 8,
{
    let shift: u32 = if m.shift {
        1
    } else {
        0
    };
    let alt: u32 = if m.alt {
        2
    } else {
        0
    };
    let control: u32 = if m.control {
        4
    } else {
        0
    };
    1 + shift + alt + control
}

/// `ESC [ final`, or with modifiers `ESC [ 1 ; param final`.
pub fn csi_final(final_byte: u8, param: u32) -> (r: Vec<u8>)
    ensures
        r@ == final_bytes(final_byte, param as nat),
{
    if param == 1 {
        vec![0x1b, 0x5b, final_byte]
    } else {
        let mut out: Vec<u8> = vec![0x1b, 0x5b, 0x31, 0x3b];
        push_number(&mut out, param);
        out.push(final_byte);
        out
    }
}

/// `ESC [ num ~`, or with modifiers `ESC [ num ; param ~`.
pub fn csi_tilde(num: u32, param: u32) -> (r: Vec<u8>)
    ensures
        r@ == tilde_bytes(num as nat, param as nat),
{
    let mut out: Vec<u8> = vec![0x1b, 0x5b];
    push_number(&mut out, num);
    if param != 1 {
        out.push(0x3b);
        push_number(&mut out, param);
    }
    out.push(0x7e);
    out
}

/// The bytes of function key `n`.
pub fn function_key(n: u8, param: u32) -> (r: Option<Vec<u8>>)
    ensures
        (match r {
            Some(bytes) => Some(bytes@),
            None => None,
        }) == function_bytes(n, param as nat),
{
    if 1 <= n && n <= 4 {
        let last: u8 = 0x4f + n;
        if param == 1 {
            Some(vec![0x1b, 0x4f, last])
        } else {
            Some(csi_final(last, param))
        }
    } else if n == 5 {
        Some(csi_tilde(15, param))
    } else if 6 <= n && n <= 10 {
        Some(csi_tilde(n as u32 + 11, param))
    } else if n == 11 || n == 12 {
        Some(csi_tilde(n as u32 + 12, param))
    } else {
        None
    }
}

// ---- the wheel -----------------------------------------------------------

/// The button number of a wheel tick.
pub open spec fn wheel_button(up: bool) -> u16 {
    if up {
        64
    } else {
        65
    }
}

/// `value` offset by 32, no further than `most`, as a character.
pub open spec fn offset_char(value: u16, most: u16) -> char {
    (32 + (if value <= most {
        value
    } else {
        most
    })) as char
}

/// The bytes of a wheel tick at the 1-based cell `x`, `y` for a program that
/// asked for mouse events: SGR in decimal, the older encodings as one character
/// each, offset by 32 and limited to what the encoding can carry.
pub open spec fn wheel_bytes(
    encoding: MouseProtocolEncoding,
    up: bool,
    x: u16,
    y: u16,
) -> Seq<u8> {
    let button = wheel_button(up);
    match encoding {
        MouseProtocolEncoding::Sgr => seq![0x1b, 0x5b, 0x3c] + digit_bytes(button as nat) + seq![
            0x3b,
        ] + digit_bytes(x as nat) + seq![0x3b] + digit_bytes(y as nat) + seq![0x4d],
        MouseProtocolEncoding::Utf8 => seq![0x1b, 0x5b, 0x4d] + encode_utf8(
            seq![offset_char(button, 2015)],
        ) + encode_utf8(seq![offset_char(x, 2015)]) + encode_utf8(seq![offset_char(y, 2015)]),
        MouseProtocolEncoding::Default => seq![
            0x1b,
            0x5b,
            0x4d,
            offset_char(button, 223) as u8,
            offset_char(x, 223) as u8,
            offset_char(y, 223) as u8,
        ],
    }
}

/// The character with the code `n`.
///
/// `char::from_u32` returns the character of a code that is no surrogate and no
/// more than the largest one; below the surrogates there is always one.
#[verifier::external_body]
fn char_at(n: u32) -> (r: char)
    requires
        n < 0xd800,
    ensures
        r as u32 == n,
{
    char::from_u32(n).unwrap_or(' ')
}

fn limited(value: u16, most: u16) -> (r: u32)
    requires
        most <= 2015,
    ensures
        r == 32 + (if value <= most {
            value
        } else {
            most
        }),
{
    if value <= most {
        32 + value as u32
    } else {
        32 + most as u32
    }
}

/// The bytes of a wheel tick for a program that asked for mouse events.
pub fn encode_wheel(encoding: MouseProtocolEncoding, up: bool, x: u16, y: u16) -> (r: Vec<u8>)
    ensures
        r@ == wheel_bytes(encoding, up, x, y),
{
    let button: u16 = if up {
        64
    } else {
        65
    };
    match encoding {
        MouseProtocolEncoding::Sgr => {
            let mut out: Vec<u8> = vec![0x1b, 0x5b, 0x3c];
            push_number(&mut out, button as u32);
            out.push(0x3b);
            push_number(&mut out, x as u32);
            out.push(0x3b);
            push_number(&mut out, y as u32);
            out.push(0x4d);
            assert(out@ == wheel_bytes(encoding, up, x, y));
            out
        },
        MouseProtocolEncoding::Utf8 => {
            let mut out: Vec<u8> = vec![0x1b, 0x5b, 0x4d];
            push_char(&mut out, char_at(limited(button, 2015)));
            push_char(&mut out, char_at(limited(x, 2015)));
            push_char(&mut out, char_at(limited(y, 2015)));
            out
        },
        MouseProtocolEncoding::Default => {
            let mut out: Vec<u8> = vec![0x1b, 0x5b, 0x4d];
            out.push(limited(button, 223) as u8);
            out.push(limited(x, 223) as u8);
            out.push(limited(y, 223) as u8);
            assert(out@ == wheel_bytes(encoding, up, x, y));
            out
        },
    }
}

/// The arrow key that stands for a wheel tick.
pub open spec fn wheel_arrow(application_cursor: bool, up: bool) -> Seq<u8> {
    seq![
        0x1b,
        if application_cursor {
            0x4f
        } else {
            0x5b
        },
        if up {
            0x41
        } else {
            0x42
        },
    ]
}

/// `s`, `n` times over.
pub open spec fn repeated(s: Seq<u8>, n: nat) -> Seq<u8>
    decreases n,
{
    if n == 0 {
        Seq::empty()
    } else {
        repeated(s, (n - 1) as nat) + s
    }
}

/// A wheel tick for a full-screen program that did not ask for mouse events:
/// `n` arrow keys, in the program's cursor-key mode.
pub fn encode_wheel_arrows(application_cursor: bool, up: bool, n: usize) -> (r: Vec<u8>)
    ensures
        r@ == repeated(wheel_arrow(application_cursor, up), n as nat),
{
    let second: u8 = if application_cursor {
        0x4f
    } else {
        0x5b
    };
    let third: u8 = if up {
        0x41
    } else {
        0x42
    };
    let mut out: Vec<u8> = Vec::new();
    for i in 0..n
        invariant
            out@ == repeated(wheel_arrow(application_cursor, up), i as nat),
            wheel_arrow(application_cursor, up) == seq![0x1b, second, third],
    {
        let ghost have = out@;
        out.push(0x1b);
        out.push(second);
        out.push(third);
        assert(out@ == have + seq![0x1b, second, third]);
    }
    out
}

// ---- laws ----------------------------------------------------------------

/// Whether a key has a name of its own and a sequence that tells its modifiers.
pub open spec fn has_sequence(code: KeyCode) -> bool {
    match code {
        KeyCode::Up | KeyCode::Down | KeyCode::Left | KeyCode::Right | KeyCode::Home
        | KeyCode::End | KeyCode::Insert | KeyCode::Delete | KeyCode::PageUp
        | KeyCode::PageDown => true,
        KeyCode::F(n) => 1 <= n <= 12,
        _ => false,
    }
}

proof fn small_digits(n: nat)
    requires
        n < 100,
    ensures
        n < 10 ==> digit_bytes(n) == seq![(48 + n) as u8],
        n >= 10 ==> digit_bytes(n) == seq![(48 + n / 10) as u8, (48 + n % 10) as u8],
{
    reveal_with_fuel(digit_bytes, 2);
    if n >= 10 {
        assert(n / 10 < 10);
        assert(digit_bytes(n) =~= seq![(48 + n / 10) as u8, (48 + n % 10) as u8]);
    }
}

/// A sequence of which the bytes before the modifiers and the last one are known.
proof fn sequences_in_full(final_byte: u8, num: nat, param: nat)
    requires
        1 <= param <= 8,
        2 <= num <= 24,
    ensures
        param > 1 ==> final_bytes(final_byte, param) == seq![
            0x1bu8,
            0x5bu8,
            0x31u8,
            0x3bu8,
            (48 + param) as u8,
            final_byte,
        ],
        param == 1 && num < 10 ==> tilde_bytes(num, param) == seq![
            0x1bu8,
            0x5bu8,
            (48 + num) as u8,
            0x7eu8,
        ],
        param == 1 && num >= 10 ==> tilde_bytes(num, param) == seq![
            0x1bu8,
            0x5bu8,
            (48 + num / 10) as u8,
            (48 + num % 10) as u8,
            0x7eu8,
        ],
        param > 1 && num < 10 ==> tilde_bytes(num, param) == seq![
            0x1bu8,
            0x5bu8,
            (48 + num) as u8,
            0x3bu8,
            (48 + param) as u8,
            0x7eu8,
        ],
        param > 1 && num >= 10 ==> tilde_bytes(num, param) == seq![
            0x1bu8,
            0x5bu8,
            (48 + num / 10) as u8,
            (48 + num % 10) as u8,
            0x3bu8,
            (48 + param) as u8,
            0x7eu8,
        ],
{
    small_digits(num);
    small_digits(param);
    if param > 1 {
        assert(final_bytes(final_byte, param) =~= seq![
            0x1bu8,
            0x5bu8,
            0x31u8,
            0x3bu8,
            (48 + param) as u8,
            final_byte,
        ]);
    }
    if num < 10 {
        if param == 1 {
            assert(tilde_bytes(num, param) =~= seq![0x1bu8, 0x5bu8, (48 + num) as u8, 0x7eu8]);
        } else {
            assert(tilde_bytes(num, param) =~= seq![
                0x1bu8,
                0x5bu8,
                (48 + num) as u8,
                0x3bu8,
                (48 + param) as u8,
                0x7eu8,
            ]);
        }
    } else if param == 1 {
        assert(tilde_bytes(num, param) =~= seq![
            0x1bu8,
            0x5bu8,
            (48 + num / 10) as u8,
            (48 + num % 10) as u8,
            0x7eu8,
        ]);
    } else {
        assert(tilde_bytes(num, param) =~= seq![
            0x1bu8,
            0x5bu8,
            (48 + num / 10) as u8,
            (48 + num % 10) as u8,
            0x3bu8,
            (48 + param) as u8,
            0x7eu8,
        ]);
    }
}

/// What a sequence tells of its key: whether it ends in a tilde, and then its
/// number, else its last byte.
spec fn mark_of(code: KeyCode) -> (bool, nat) {
    match code {
        KeyCode::Up => (false, 0x41),
        KeyCode::Down => (false, 0x42),
        KeyCode::Right => (false, 0x43),
        KeyCode::Left => (false, 0x44),
        KeyCode::End => (false, 0x46),
        KeyCode::Home => (false, 0x48),
        KeyCode::Insert => (true, 2),
        KeyCode::Delete => (true, 3),
        KeyCode::PageUp => (true, 5),
        KeyCode::PageDown => (true, 6),
        KeyCode::F(n) => if n <= 4 {
            (false, (0x4f + n) as nat)
        } else if n == 5 {
            (true, 15)
        } else if n <= 10 {
            (true, (n + 11) as nat)
        } else {
            (true, (n + 12) as nat)
        },
        _ => (false, 0),
    }
}

/// What the bytes of a key with a sequence are, by the terminal's own rules: `ESC [`
/// and a letter for the arrows, Home and End, `ESC O` and a letter for the first
/// four function keys, `ESC [`, a number and a tilde for the others; held modifiers
/// come as one more number before the end.
proof fn sequences_by_mark(key: KeyEvent)
    requires
        has_sequence(key.code),
    ensures
        key_bytes(key) is Some,
        ({
            let bytes = key_bytes(key)->0;
            let mark = mark_of(key.code);
            let param = param_of(key.modifiers);
            let digit = (48 + param) as u8;
            &&& 1 <= param <= 8
            &&& mark.0 ==> 2 <= mark.1 <= 24
            &&& !mark.0 ==> 0x41 <= mark.1 <= 0x53
            &&& mark.0 ==> bytes == tilde_bytes(mark.1, param)
            &&& !mark.0 && param > 1 ==> bytes == final_bytes(mark.1 as u8, param)
            &&& !mark.0 && param == 1 ==> bytes == seq![
                0x1bu8,
                if key.code is F {
                    0x4fu8
                } else {
                    0x5bu8
                },
                mark.1 as u8,
            ]
        }),
{
}

proof fn marks_tell_keys_apart(a: KeyCode, b: KeyCode)
    requires
        has_sequence(a),
        has_sequence(b),
        mark_of(a) == mark_of(b),
    ensures
        a == b,
{
}

proof fn sequences_show_marks(key: KeyEvent)
    requires
        has_sequence(key.code),
    ensures
        key_bytes(key) is Some,
        ({
            let bytes = key_bytes(key)->0;
            let mark = mark_of(key.code);
            let param = param_of(key.modifiers);
            &&& 1 <= param <= 8
            &&& bytes.len() == (if mark.0 {
                (if mark.1 < 10 {
                    4int
                } else {
                    5int
                }) + (if param == 1 {
                    0int
                } else {
                    2int
                })
            } else if param == 1 {
                3
            } else {
                6
            })
            &&& bytes.last() == (if mark.0 {
                0x7e
            } else {
                mark.1
            })
            &&& mark.1 != 0x7e
            &&& param > 1 ==> bytes[bytes.len() - 2] == 48 + param
            &&& mark.0 && mark.1 < 10 ==> bytes[2] == 48 + mark.1
            &&& mark.0 && mark.1 >= 10 ==> bytes[2] == 48 + mark.1 / 10 && bytes[3] == 48 + mark.1
                % 10
        }),
{
    sequences_by_mark(key);
    let mark = mark_of(key.code);
    sequences_in_full(mark.1 as u8, if mark.0 {
        mark.1
    } else {
        2
    }, param_of(key.modifiers));
}

proof fn sequences_tell_marks_apart(a: KeyEvent, b: KeyEvent)
    requires
        has_sequence(a.code),
        has_sequence(b.code),
        key_bytes(a) == key_bytes(b),
    ensures
        mark_of(a.code) == mark_of(b.code),
        param_of(a.modifiers) == param_of(b.modifiers),
{
    sequences_show_marks(a);
    sequences_show_marks(b);
    let (x, y) = (mark_of(a.code), mark_of(b.code));
    assert(x.0 == y.0);
    assert(param_of(a.modifiers) == param_of(b.modifiers));
    if x.0 {
        assert((x.1 < 10) == (y.1 < 10));
        assert(x.1 == y.1);
    }
}

/// No two keys that have a sequence send the same bytes, and neither does one key
/// with different modifiers held: what is sent tells the key, and whether Shift, Alt
/// and Ctrl were held.
pub proof fn sequences_tell_keys_apart(a: KeyEvent, b: KeyEvent)
    requires
        has_sequence(a.code),
        has_sequence(b.code),
        key_bytes(a) == key_bytes(b),
    ensures
        a.code == b.code,
        a.modifiers.shift == b.modifiers.shift,
        a.modifiers.alt == b.modifiers.alt,
        a.modifiers.control == b.modifiers.control,
{
    sequences_tell_marks_apart(a, b);
    marks_tell_keys_apart(a.code, b.code);
}

/// The arrows, Home and End send what terminals send for them: with no modifier
/// held `ESC [` and a letter, with some held the same letter behind their number.
pub proof fn arrows_send_their_letters(key: KeyEvent, letter: u8)
    requires
        match key.code {
            KeyCode::Up => letter == 0x41,
            KeyCode::Down => letter == 0x42,
            KeyCode::Right => letter == 0x43,
            KeyCode::Left => letter == 0x44,
            KeyCode::End => letter == 0x46,
            KeyCode::Home => letter == 0x48,
            _ => false,
        },
    ensures
        key_bytes(key) is Some,
        ({
            let bytes = key_bytes(key)->0;
            let m = key.modifiers;
            &&& !m.shift && !m.alt && !m.control ==> bytes == seq![0x1bu8, 0x5bu8, letter]
            &&& m.shift || m.alt || m.control ==> bytes == seq![
                0x1bu8,
                0x5bu8,
                0x31u8,
                0x3bu8,
                (0x31 + (if m.shift {
                    1int
                } else {
                    0
                }) + (if m.alt {
                    2int
                } else {
                    0
                }) + (if m.control {
                    4int
                } else {
                    0
                })) as u8,
                letter,
            ]
        }),
{
    sequences_in_full(letter, 2, param_of(key.modifiers));
}

/// Insert, Delete and the pages send their numbers, and so do the function keys from
/// the fifth on; the first four send `ESC O` and the letters from P on.
pub proof fn numbered_keys_send_their_numbers(key: KeyEvent)
    requires
        !key.modifiers.shift && !key.modifiers.alt && !key.modifiers.control,
    ensures
        key.code == KeyCode::Insert ==> key_bytes(key) == Some(seq![0x1bu8, 0x5bu8, 0x32u8, 0x7eu8]),
        key.code == KeyCode::Delete ==> key_bytes(key) == Some(seq![0x1bu8, 0x5bu8, 0x33u8, 0x7eu8]),
        key.code == KeyCode::PageUp ==> key_bytes(key) == Some(seq![0x1bu8, 0x5bu8, 0x35u8, 0x7eu8]),
        key.code == KeyCode::PageDown ==> key_bytes(key) == Some(
            seq![0x1bu8, 0x5bu8, 0x36u8, 0x7eu8],
        ),
        key.code matches KeyCode::F(n) ==> {
            &&& 1 <= n <= 4 ==> key_bytes(key) == Some(seq![0x1bu8, 0x4fu8, (0x4f + n) as u8])
            &&& n == 5 ==> key_bytes(key) == Some(seq![0x1bu8, 0x5bu8, 0x31u8, 0x35u8, 0x7eu8])
            &&& 6 <= n <= 8 ==> key_bytes(key) == Some(
                seq![0x1bu8, 0x5bu8, 0x31u8, (0x31 + n) as u8, 0x7eu8],
            )
            &&& 9 <= n <= 10 ==> key_bytes(key) == Some(
                seq![0x1bu8, 0x5bu8, 0x32u8, (0x27 + n) as u8, 0x7eu8],
            )
            &&& 11 <= n <= 12 ==> key_bytes(key) == Some(
                seq![0x1bu8, 0x5bu8, 0x32u8, (0x28 + n) as u8, 0x7eu8],
            )
            &&& n == 0 || n > 12 ==> key_bytes(key) is None
        },
{
    sequences_in_full(0, 2, 1);
    sequences_in_full(0, 3, 1);
    sequences_in_full(0, 5, 1);
    sequences_in_full(0, 6, 1);
    match key.code {
        KeyCode::F(n) => {
            if 5 <= n <= 12 {
                sequences_in_full(0, function_number(n), 1);
            }
        },
        _ => {},
    }
}

/// The keys of a typewriter send their control characters, whatever is held:
/// carriage return, tab, delete and escape; a tab backwards has a sequence.
pub proof fn plain_keys_send_control_characters(key: KeyEvent)
    ensures
        key.code == KeyCode::Enter ==> key_bytes(key) == Some(seq![13u8]),
        key.code == KeyCode::Tab ==> key_bytes(key) == Some(seq![9u8]),
        key.code == KeyCode::Backspace ==> key_bytes(key) == Some(seq![127u8]),
        key.code == KeyCode::Esc ==> key_bytes(key) == Some(seq![27u8]),
        key.code == KeyCode::BackTab ==> key_bytes(key) == Some(seq![27u8, 91u8, 90u8]),
{
}

/// A character is sent as itself, however Shift is held; with Alt, as an escape and
/// what it sends without; with Ctrl, a letter as its place in the alphabet, large or
/// small, and a character that has no control byte as itself.
pub proof fn characters_are_sent_as_themselves(c: char, m: KeyModifiers, held: KeyModifiers)
    requires
        held == (KeyModifiers { alt: true, ..m }),
        !m.alt,
    ensures
        ({
            let key = KeyEvent { code: KeyCode::Char(c), modifiers: m };
            let with_alt = KeyEvent { code: KeyCode::Char(c), modifiers: held };
            &&& !m.control ==> key_bytes(key) == Some(encode_utf8(seq![c]))
            &&& key_bytes(key) is Some && key_bytes(with_alt) == Some(
                seq![0x1bu8] + key_bytes(key)->0,
            )
            &&& m.control && 'a' <= c <= 'z' ==> key_bytes(key) == Some(
                seq![(c as u32 - 'a' as u32 + 1) as u8],
            )
            &&& m.control && 'A' <= c <= 'Z' ==> key_bytes(key) == Some(
                seq![(c as u32 - 'A' as u32 + 1) as u8],
            )
            &&& m.control && (c as u32 > 127 || '0' <= c <= '9') ==> key_bytes(key) == Some(
                encode_utf8(seq![c]),
            )
        }),
{
    let key = KeyEvent { code: KeyCode::Char(c), modifiers: m };
    assert(key_bytes(key)->0 =~= if m.control && control_of(c) is Some {
        seq![control_of(c)->0]
    } else {
        encode_utf8(seq![c])
    });
}

/// A wheel tick up and one down are told apart in every encoding, and in the
/// arrows that stand for them; those are what the arrow keys send, in the program's
/// own mode.
pub proof fn wheel_ticks_are_told_apart(
    encoding: MouseProtocolEncoding,
    application: bool,
    x: u16,
    y: u16,
    up: KeyEvent,
    down: KeyEvent,
)
    requires
        up.code == KeyCode::Up && !up.modifiers.shift && !up.modifiers.alt && !up.modifiers.control,
        down.code == KeyCode::Down && !down.modifiers.shift && !down.modifiers.alt
            && !down.modifiers.control,
    ensures
        encoding != MouseProtocolEncoding::Utf8 ==> wheel_bytes(encoding, true, x, y)
            != wheel_bytes(encoding, false, x, y),
        wheel_arrow(application, true) != wheel_arrow(application, false),
        key_bytes(up) == Some(wheel_arrow(false, true)),
        key_bytes(down) == Some(wheel_arrow(false, false)),
        wheel_arrow(true, true) == seq![0x1bu8, 0x4fu8, 0x41u8],
        wheel_arrow(true, false) == seq![0x1bu8, 0x4fu8, 0x42u8],
{
    small_digits(64);
    small_digits(65);
    let a = wheel_bytes(encoding, true, x, y);
    let b = wheel_bytes(encoding, false, x, y);
    match encoding {
        MouseProtocolEncoding::Sgr => {
            assert(a[4] == 52 && b[4] == 53);
        },
        MouseProtocolEncoding::Default => {
            assert(a[3] == 96 && b[3] == 97);
        },
        _ => {},
    }
    assert(wheel_arrow(application, true)[2] != wheel_arrow(application, false)[2]);
}

/// A wheel tick is reported with its button, then its column, then its row, in every
/// encoding: in decimal with semicolons between, or as one character each.
pub proof fn ticks_tell_column_before_row(up: bool, x: u16, y: u16)
    ensures
        wheel_bytes(MouseProtocolEncoding::Sgr, up, x, y) == seq![
            0x1bu8,
            0x5bu8,
            0x3cu8,
            0x36u8,
            if up {
                0x34u8
            } else {
                0x35u8
            },
            0x3bu8,
        ] + digit_bytes(x as nat) + seq![0x3bu8] + digit_bytes(y as nat) + seq![0x4du8],
        x <= 223 && y <= 223 ==> wheel_bytes(MouseProtocolEncoding::Default, up, x, y) == seq![
            0x1bu8,
            0x5bu8,
            0x4du8,
            if up {
                96u8
            } else {
                97u8
            },
            (32 + x) as u8,
            (32 + y) as u8,
        ],
        x <= 2015 && y <= 2015 ==> wheel_bytes(MouseProtocolEncoding::Utf8, up, x, y) == seq![
            0x1bu8,
            0x5bu8,
            0x4du8,
        ] + encode_utf8(
            seq![
                if up {
                    '`'
                } else {
                    'a'
                },
            ],
        ) + encode_utf8(seq![(32 + x) as char]) + encode_utf8(seq![(32 + y) as char]),
{
    small_digits(64);
    small_digits(65);
    let sgr = wheel_bytes(MouseProtocolEncoding::Sgr, up, x, y);
    let head = seq![
        0x1bu8,
        0x5bu8,
        0x3cu8,
        0x36u8,
        if up {
            0x34u8
        } else {
            0x35u8
        },
        0x3bu8,
    ];
    assert(seq![0x1bu8, 0x5bu8, 0x3cu8] + digit_bytes(wheel_button(up) as nat) + seq![0x3bu8]
        =~= head);
    assert(sgr =~= head + digit_bytes(x as nat) + seq![0x3bu8] + digit_bytes(y as nat) + seq![
        0x4du8,
    ]);
}

} // verus!
