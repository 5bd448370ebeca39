//! What keys and the wheel send to a pane.

use tutti::attach::mouse::route_wheel;
use tutti::input::{control_byte, encode_key, encode_wheel, encode_wheel_arrows};
use tutti::key::{KeyCode, KeyEvent, KeyModifiers};
use tutti::layout::Rect;
use tutti::screen::{MouseProtocolEncoding, MouseProtocolMode};

#[test]
fn control_bytes_cover_the_punctuation() {
    assert_eq!(control_byte('a'), Some(1));
    assert_eq!(control_byte('z'), Some(26));
    assert_eq!(control_byte('@'), Some(0));
    assert_eq!(control_byte('['), Some(27));
    assert_eq!(control_byte('é'), None);
}

#[test]
fn wheel_ticks_are_routed_by_the_modes() {
    let rect = Some(Rect::new(10, 5, 40, 20));
    let route = |mode, alternate, rect| {
        route_wheel(mode, MouseProtocolEncoding::Sgr, alternate, false, rect, 15, 8, true)
    };
    assert_eq!(
        route(MouseProtocolMode::Press, false, rect),
        Some(b"\x1b[<64;5;3M".to_vec())
    );
    assert_eq!(route(MouseProtocolMode::Press, true, None), None);
    assert_eq!(
        route(MouseProtocolMode::Off, true, rect),
        Some(b"\x1b[A\x1b[A\x1b[A".to_vec())
    );
    assert_eq!(route(MouseProtocolMode::Off, false, rect), None);
}

fn key(code: KeyCode) -> KeyEvent {
    KeyEvent::new(code, KeyModifiers::none())
}
fn keym(code: KeyCode, mods: KeyModifiers) -> KeyEvent {
    KeyEvent::new(code, mods)
}

#[test]
fn plain_and_shifted_chars() {
    assert_eq!(encode_key(key(KeyCode::Char('a'))), Some(b"a".to_vec()));
    assert_eq!(
        encode_key(keym(KeyCode::Char('A'), KeyModifiers::shift())),
        Some(b"A".to_vec())
    );
    assert_eq!(
        encode_key(key(KeyCode::Char('é'))),
        Some("é".as_bytes().to_vec())
    );
}

#[test]
fn control_chords() {
    assert_eq!(
        encode_key(keym(KeyCode::Char('c'), KeyModifiers::control())),
        Some(vec![0x03])
    );
    assert_eq!(
        encode_key(keym(KeyCode::Char('a'), KeyModifiers::control())),
        Some(vec![0x01])
    );
    assert_eq!(
        encode_key(keym(KeyCode::Char(' '), KeyModifiers::control())),
        Some(vec![0x00])
    );
}

#[test]
fn alt_prefixes_escape() {
    assert_eq!(
        encode_key(keym(KeyCode::Char('x'), KeyModifiers::alt())),
        Some(vec![0x1b, b'x'])
    );
    assert_eq!(
        encode_key(keym(
            KeyCode::Char('a'),
            KeyModifiers { shift: false, control: true, alt: true, other: false }
        )),
        Some(vec![0x1b, 0x01])
    );
}

#[test]
fn named_keys() {
    assert_eq!(encode_key(key(KeyCode::Enter)), Some(vec![b'\r']));
    assert_eq!(encode_key(key(KeyCode::Tab)), Some(vec![b'\t']));
    assert_eq!(encode_key(key(KeyCode::Backspace)), Some(vec![0x7f]));
    assert_eq!(encode_key(key(KeyCode::Esc)), Some(vec![0x1b]));
    assert_eq!(encode_key(key(KeyCode::BackTab)), Some(b"\x1b[Z".to_vec()));
}

#[test]
fn arrows_and_modifiers() {
    assert_eq!(encode_key(key(KeyCode::Up)), Some(b"\x1b[A".to_vec()));
    assert_eq!(encode_key(key(KeyCode::Left)), Some(b"\x1b[D".to_vec()));
    assert_eq!(
        encode_key(keym(KeyCode::Up, KeyModifiers::control())),
        Some(b"\x1b[1;5A".to_vec())
    );
    assert_eq!(
        encode_key(keym(KeyCode::Up, KeyModifiers::shift())),
        Some(b"\x1b[1;2A".to_vec())
    );
}

#[test]
fn home_end_and_tilde_keys() {
    assert_eq!(encode_key(key(KeyCode::Home)), Some(b"\x1b[H".to_vec()));
    assert_eq!(encode_key(key(KeyCode::End)), Some(b"\x1b[F".to_vec()));
    assert_eq!(encode_key(key(KeyCode::Delete)), Some(b"\x1b[3~".to_vec()));
    assert_eq!(encode_key(key(KeyCode::PageUp)), Some(b"\x1b[5~".to_vec()));
    assert_eq!(
        encode_key(keym(KeyCode::Delete, KeyModifiers::control())),
        Some(b"\x1b[3;5~".to_vec())
    );
}

#[test]
fn function_keys() {
    assert_eq!(encode_key(key(KeyCode::F(1))), Some(b"\x1bOP".to_vec()));
    assert_eq!(encode_key(key(KeyCode::F(4))), Some(b"\x1bOS".to_vec()));
    assert_eq!(encode_key(key(KeyCode::F(5))), Some(b"\x1b[15~".to_vec()));
    assert_eq!(encode_key(key(KeyCode::F(12))), Some(b"\x1b[24~".to_vec()));
    assert_eq!(encode_key(key(KeyCode::F(20))), None);
}

#[test]
fn unmapped_keys_return_none() {
    assert_eq!(encode_key(key(KeyCode::Null)), None);
    assert_eq!(encode_key(key(KeyCode::CapsLock)), None);
}

#[test]
fn wheel_encodings() {
    
    assert_eq!(
        encode_wheel(MouseProtocolEncoding::Sgr, true, 5, 3),
        b"\x1b[<64;5;3M".to_vec(),
        "SGR spells the button and 1-based cell in decimal"
    );
    assert_eq!(encode_wheel(MouseProtocolEncoding::Sgr, false, 1, 1), b"\x1b[<65;1;1M".to_vec());
    assert_eq!(
        encode_wheel(MouseProtocolEncoding::Default, true, 5, 3),
        vec![0x1b, b'[', b'M', 32 + 64, 32 + 5, 32 + 3],
        "the legacy encoding offsets each value by 32 into one byte"
    );
    assert_eq!(
        encode_wheel(MouseProtocolEncoding::Default, true, 1000, 1000),
        vec![0x1b, b'[', b'M', 32 + 64, 255, 255],
        "legacy coordinates cap at what a byte can carry"
    );
    // UTF-8 mode encodes the offset value as a codepoint, so a coordinate
    // past 95 becomes a two-byte sequence instead of clamping.
    assert_eq!(
        encode_wheel(MouseProtocolEncoding::Utf8, true, 200, 1),
        [
            b"\x1b[M".as_slice(),
            "\u{60}".as_bytes(),
            "\u{e8}".as_bytes(),
            b"!"
        ]
        .concat()
    );
}

#[test]
fn wheel_arrows_honour_application_cursor_mode() {
    assert_eq!(encode_wheel_arrows(false, true, 3), b"\x1b[A".repeat(3));
    assert_eq!(encode_wheel_arrows(false, false, 3), b"\x1b[B".repeat(3));
    assert_eq!(encode_wheel_arrows(true, true, 1), b"\x1bOA".to_vec());
    assert_eq!(encode_wheel_arrows(true, false, 1), b"\x1bOB".to_vec());
}
