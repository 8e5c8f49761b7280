use std::time::Duration;
use tuikit::input::{alt, plain, KeyBoard, KeyError, ReadAndAsRawFd, Wait};
use tuikit::key::{Key, MouseButton};
use tuikit::sequence::State;

/// A device that returns what it was told to, one read after the other, and
/// nothing once that is used up.
struct Script {
    reads: Vec<Result<Vec<u8>, String>>,
}

impl Script {
    fn new(reads: Vec<Result<Vec<u8>, String>>) -> Script {
        Script { reads }
    }
}

impl ReadAndAsRawFd for Script {
    fn read_ready(&mut self, _wait: Wait) -> Result<Vec<u8>, String> {
        if self.reads.is_empty() {
            Ok(Vec::new())
        } else {
            self.reads.remove(0)
        }
    }
}

fn keyboard(bytes: &[u8]) -> KeyBoard<Script> {
    KeyBoard::new(Script::new(vec![Ok(bytes.to_vec())]))
}

fn only_key(bytes: &[u8]) -> Result<Key, KeyError> {
    let mut kb = keyboard(bytes);
    let first = kb.next_key().expect("the sequence is complete");
    assert_eq!(kb.queued(), 0);
    assert_eq!(kb.state(), State::Start);
    first
}

fn unsupported(text: &str) -> Result<Key, KeyError> {
    Err(KeyError::Unsupported(text.chars().collect()))
}

#[test]
fn plain_arrow() {
    assert_eq!(only_key(&[0x1b, 0x5b, 0x41]), Ok(Key::Up));
}

#[test]
fn alt_up_by_double_escape() {
    assert_eq!(only_key(&[0x1b, 0x1b, 0x5b, 0x41]), Ok(Key::AltUp));
}

#[test]
fn sgr_mouse_press() {
    assert_eq!(only_key(b"\x1b[<0;5;3M"), Ok(Key::MousePress(MouseButton::Left, 4, 2)));
}

#[test]
fn unknown_sequence_names_its_bytes() {
    assert_eq!(only_key(&[0x1b, 0x5b, 0x39]), unsupported("\x1b[9"));
    assert_eq!(only_key(b"\x1b[0"), unsupported("\x1b[0"));
    assert_eq!(only_key(b"\x1b[x"), unsupported("\x1b[x"));
}

#[test]
fn zero_timeout_on_silent_device_is_no_data() {
    let mut kb = KeyBoard::new(Script::new(vec![]));
    assert_eq!(kb.next_key_timeout(Duration::new(0, 0)), Some(Err(KeyError::NoData)));
    assert_eq!(kb.wait_for(Wait::Poll), Wait::Poll);
}

#[test]
fn interrupted_read_is_no_data() {
    let mut kb = KeyBoard::new(Script::new(vec![Ok(vec![]), Ok(vec![b'a'])]));
    assert_eq!(kb.next_key(), Some(Err(KeyError::NoData)));
    assert_eq!(kb.next_key(), Some(Ok(Key::Char('a'))));
}

#[test]
fn printable_bytes_are_their_characters() {
    for b in 0x20u8..0x7f {
        assert_eq!(only_key(&[b]), Ok(Key::Char(b as char)));
    }
}

#[test]
fn control_bytes_are_ctrl_keys() {
    assert_eq!(only_key(&[0x00]), Ok(Key::Ctrl(' ')));
    for b in 0x01u8..=0x1a {
        let expected = match b {
            0x09 => Key::Tab,
            0x0d => Key::Enter,
            _ => Key::Ctrl((b'a' + b - 1) as char),
        };
        assert_eq!(only_key(&[b]), Ok(expected));
    }
    assert_eq!(only_key(&[0x03]), Ok(Key::Ctrl('c')));
    assert_eq!(only_key(&[0x1a]), Ok(Key::Ctrl('z')));
    assert_eq!(only_key(&[0x7f]), Ok(Key::Backspace));
}

#[test]
fn control_characters_above_escape_are_characters() {
    assert_eq!(only_key(&[0x1c]), Ok(Key::Char('\u{1c}')));
    assert_eq!(only_key(&[0x1f]), Ok(Key::Char('\u{1f}')));
}

#[test]
fn plain_and_alt_tables() {
    assert_eq!(plain('q'), Key::Char('q'));
    assert_eq!(plain('\t'), Key::Tab);
    assert_eq!(plain('\u{1}'), Key::Ctrl('a'));
    assert_eq!(alt('q'), Key::Alt('q'));
    assert_eq!(alt('\t'), Key::AltTab);
    assert_eq!(alt('\r'), Key::AltEnter);
    assert_eq!(alt('\u{19}'), Key::CtrlAlt('y'));
    assert_eq!(alt('\u{7f}'), Key::AltBackspace);
    assert_eq!(alt('\u{0}'), Key::CtrlAlt(' '));
    assert_eq!(alt('\u{1}'), Key::CtrlAlt('a'));
    assert_eq!(alt('\u{1a}'), Key::CtrlAlt('z'));
}

#[test]
fn cursor_report_round_trip() {
    for &(row, col) in &[(0u16, 0u16), (2, 4), (9, 99), (23, 79), (999, 9999), (65534, 65534)] {
        let reply = format!("\x1b[{};{}R", row as u32 + 1, col as u32 + 1);
        assert_eq!(only_key(reply.as_bytes()), Ok(Key::CursorPos(row, col)));
    }
}

#[test]
fn cursor_report_with_leading_zeros() {
    assert_eq!(only_key(b"\x1b[007;0012R"), Ok(Key::CursorPos(6, 11)));
}

#[test]
fn cursor_report_out_of_range_is_unsupported() {
    assert_eq!(only_key(b"\x1b[0;5R"), unsupported("\x1b[0;5R"));
    assert_eq!(only_key(b"\x1b[5;0R"), unsupported("\x1b[5;0R"));
    assert_eq!(only_key(b"\x1b[65536;1R"), unsupported("\x1b[65536;1R"));
    assert_eq!(only_key(b"\x1b[1;99999999999999999999R"), unsupported("\x1b[1;99999999999999999999R"));
}

#[test]
fn cursor_report_after_double_escape_is_unsupported() {
    assert_eq!(only_key(b"\x1b\x1b[3;4R"), unsupported("\x1b\x1b[3;4R"));
}

#[test]
fn report_shape_is_not_taken_from_later_keys() {
    // Ctrl+Up, then text that holds `;` and `R`: no report begins the queue.
    let mut kb = keyboard(b"\x1b[1;5Aa;bR");
    assert_eq!(kb.next_key(), Some(Ok(Key::CtrlUp)));
    assert_eq!(kb.next_key(), Some(Ok(Key::Char('a'))));
    assert_eq!(kb.next_key(), Some(Ok(Key::Char(';'))));
    assert_eq!(kb.next_key(), Some(Ok(Key::Char('b'))));
    assert_eq!(kb.next_key(), Some(Ok(Key::Char('R'))));
    assert_eq!(kb.next_key(), Some(Err(KeyError::NoData)));
}

#[test]
fn report_that_arrives_late_is_no_report() {
    // `ESC [` alone, then the rest: the report was not there when `[` was read.
    let mut kb = KeyBoard::new(Script::new(vec![Ok(b"\x1b[".to_vec()), Ok(b"1;1R".to_vec())]));
    assert_eq!(kb.next_key(), None);
    assert_eq!(kb.state(), State::Csi);
    assert_eq!(kb.next_key(), Some(unsupported("\x1b[1;1R")));
}

#[test]
fn keys_come_in_the_order_of_arrival() {
    let mut kb = keyboard(b"a\x1b[Bb\x1bOPc");
    assert_eq!(kb.next_key(), Some(Ok(Key::Char('a'))));
    assert_eq!(kb.next_key(), Some(Ok(Key::Down)));
    assert_eq!(kb.next_key(), Some(Ok(Key::Char('b'))));
    assert_eq!(kb.next_key(), Some(Ok(Key::F(1))));
    assert_eq!(kb.next_key(), Some(Ok(Key::Char('c'))));
}

#[test]
fn text_beyond_ascii() {
    let mut kb = keyboard("é€😀".as_bytes());
    assert_eq!(kb.next_key(), Some(Ok(Key::Char('é'))));
    assert_eq!(kb.next_key(), Some(Ok(Key::Char('€'))));
    assert_eq!(kb.next_key(), Some(Ok(Key::Char('😀'))));
    assert_eq!(only_key(&[0x1b, 0xc3, 0xa9]), Ok(Key::Alt('é')));
}

#[test]
fn bytes_that_are_not_utf8() {
    let mut kb = keyboard(&[b'a', 0xff, b'b']);
    assert_eq!(kb.next_key(), Some(Err(KeyError::InvalidUtf8)));
    assert_eq!(kb.queued(), 0);
    let mut kb = KeyBoard::new(Script::new(vec![]));
    assert!(!kb.get_chars(vec![0xc3]));
    assert_eq!(kb.queued(), 0);
    assert!(kb.get_chars(vec![0xc3, 0xa9, b'x']));
    assert_eq!(kb.queued(), 2);
}

#[test]
fn device_error_comes_through() {
    let mut kb = KeyBoard::new(Script::new(vec![Err("broken pipe".to_string())]));
    assert_eq!(kb.next_key(), Some(Err(KeyError::Device("broken pipe".to_string()))));
    // also in the middle of a sequence, and after a double escape
    let reads = vec![Ok(b"\x1b\x1b[".to_vec()), Err("gone".to_string())];
    let mut kb = KeyBoard::new(Script::new(reads));
    assert_eq!(kb.next_key(), None);
    assert_eq!(kb.next_key(), Some(Err(KeyError::Device("gone".to_string()))));
    assert_eq!(kb.state(), State::Start);
}

#[test]
fn escape_on_its_own() {
    let mut kb = KeyBoard::new(Script::new(vec![Ok(vec![0x1b])]));
    assert_eq!(kb.next_key(), None);
    assert_eq!(kb.state(), State::Escape);
    assert_eq!(kb.wait_for(Wait::Forever), Wait::Pause);
    assert_eq!(kb.next_key(), Some(Ok(Key::ESC)));
    assert_eq!(kb.state(), State::Start);
}

#[test]
fn double_escape_on_its_own() {
    let mut kb = KeyBoard::new(Script::new(vec![Ok(vec![0x1b, 0x1b])]));
    assert_eq!(kb.next_key(), None);
    assert_eq!(kb.state(), State::EscEsc);
    assert_eq!(kb.wait_for(Wait::Forever), Wait::Pause);
    assert_eq!(kb.next_key(), Some(Ok(Key::ESC)));
}

#[test]
fn double_escape_and_another_character() {
    assert_eq!(only_key(b"\x1b\x1bx"), unsupported("\x1b\x1bx"));
    assert_eq!(only_key(b"\x1b\x1b\x1b"), unsupported("\x1b\x1b\x1b"));
}

#[test]
fn double_escape_navigation() {
    assert_eq!(only_key(b"\x1b\x1b[B"), Ok(Key::AltDown));
    assert_eq!(only_key(b"\x1b\x1b[C"), Ok(Key::AltRight));
    assert_eq!(only_key(b"\x1b\x1b[D"), Ok(Key::AltLeft));
    assert_eq!(only_key(b"\x1b\x1b[5~"), Ok(Key::AltPageUp));
    assert_eq!(only_key(b"\x1b\x1b[6~"), Ok(Key::AltPageDown));
    assert_eq!(only_key(b"\x1b\x1b[H"), unsupported("\x1b\x1b[H"));
    assert_eq!(only_key(b"\x1b\x1b[3~"), unsupported("\x1b\x1b[3~"));
    assert_eq!(only_key(b"\x1b\x1b[9"), unsupported("\x1b\x1b[9"));
}

#[test]
fn sequence_broken_off() {
    let mut kb = KeyBoard::new(Script::new(vec![Ok(b"\x1b[".to_vec())]));
    assert_eq!(kb.next_key(), None);
    assert_eq!(kb.wait_for(Wait::Forever), Wait::Poll);
    assert_eq!(kb.next_key(), Some(Err(KeyError::NoData)));
    assert_eq!(kb.state(), State::Start);
    let mut kb = KeyBoard::new(Script::new(vec![Ok(b"\x1b\x1b[".to_vec())]));
    assert_eq!(kb.next_key(), None);
    assert_eq!(kb.next_key(), Some(unsupported("\x1b\x1b[")));
}

#[test]
fn sequence_split_over_reads() {
    let reads = vec![Ok(b"\x1b".to_vec()), Ok(b"[".to_vec()), Ok(b"1".to_vec()), Ok(b";5".to_vec()), Ok(b"C".to_vec())];
    let mut kb = KeyBoard::new(Script::new(reads));
    assert_eq!(kb.next_key_timeout(Duration::from_millis(250)), None);
    assert_eq!(kb.next_key_timeout(Duration::from_millis(250)), None);
    assert_eq!(kb.next_key_timeout(Duration::from_millis(250)), None);
    assert_eq!(kb.state(), State::Extended('1'));
    assert_eq!(kb.next_key_timeout(Duration::from_millis(250)), None);
    assert_eq!(kb.state(), State::Modifier2('1', '5'));
    assert_eq!(kb.next_key_timeout(Duration::from_millis(250)), Some(Ok(Key::CtrlRight)));
}

#[test]
fn the_wait_of_each_read() {
    struct Shared(std::rc::Rc<std::cell::RefCell<Vec<Wait>>>, Vec<Vec<u8>>);
    impl ReadAndAsRawFd for Shared {
        fn read_ready(&mut self, wait: Wait) -> Result<Vec<u8>, String> {
            self.0.borrow_mut().push(wait);
            Ok(if self.1.is_empty() { Vec::new() } else { self.1.remove(0) })
        }
    }
    let waits = std::rc::Rc::new(std::cell::RefCell::new(Vec::new()));
    let reads = vec![b"\x1b".to_vec(), b"[".to_vec(), b"A".to_vec()];
    let mut kb = KeyBoard::new(Shared(waits.clone(), reads));
    let patience = Duration::from_millis(700);
    assert_eq!(kb.next_key_timeout(patience), None);
    assert_eq!(kb.next_key_timeout(patience), None);
    assert_eq!(kb.next_key_timeout(patience), Some(Ok(Key::Up)));
    assert_eq!(kb.next_key(), Some(Err(KeyError::NoData)));
    assert_eq!(*waits.borrow(), vec![Wait::Timeout(patience), Wait::Pause, Wait::Poll, Wait::Forever]);
}

#[test]
fn queue_is_decoded_before_the_device_is_read() {
    struct Shared(std::rc::Rc<std::cell::RefCell<usize>>);
    impl ReadAndAsRawFd for Shared {
        fn read_ready(&mut self, _wait: Wait) -> Result<Vec<u8>, String> {
            *self.0.borrow_mut() += 1;
            Ok(Vec::new())
        }
    }
    let count = std::rc::Rc::new(std::cell::RefCell::new(0));
    let mut kb = KeyBoard::new(Shared(count.clone()));
    assert!(kb.get_chars(b"xy".to_vec()));
    assert_eq!(kb.next_key(), Some(Ok(Key::Char('x'))));
    assert_eq!(kb.next_key(), Some(Ok(Key::Char('y'))));
    assert_eq!(*count.borrow(), 0);
    assert_eq!(kb.next_key(), Some(Err(KeyError::NoData)));
    assert_eq!(*count.borrow(), 1);
}

#[test]
fn second_escape_begins_a_key_with_alt() {
    for (body, key) in [
        (&b"[A"[..], Key::AltUp),
        (b"[B", Key::AltDown),
        (b"[C", Key::AltRight),
        (b"[D", Key::AltLeft),
        (b"[5~", Key::AltPageUp),
        (b"[6~", Key::AltPageDown),
    ] {
        let mut kb = KeyBoard::new(Script::new(vec![]));
        assert!(kb.get_chars(vec![0x1b]));
        assert_eq!(kb.step(), None);
        assert_eq!(kb.state(), State::Escape);
        let mut rest = body.to_vec();
        rest.push(b'x');
        assert!(kb.get_chars(rest));
        assert_eq!(kb.parse_alt('\u{1b}'), None);
        assert_eq!(kb.state(), State::EscEsc);
        assert_eq!(kb.decode(), Some(Ok(key)));
        assert_eq!(kb.state(), State::Start);
        assert_eq!(kb.queued(), 1);
        assert_eq!(kb.decode(), Some(Ok(Key::Char('x'))));
    }
}

#[test]
fn second_escape_and_anything_else_is_no_key() {
    let mut kb = KeyBoard::new(Script::new(vec![]));
    assert!(kb.get_chars(b"\x1b\x1b[H".to_vec()));
    assert_eq!(kb.decode(), Some(unsupported("\u{1b}\u{1b}[H")));
    assert!(kb.get_chars(b"\x1b\x1bx".to_vec()));
    assert_eq!(kb.decode(), Some(unsupported("\u{1b}\u{1b}x")));
}

#[test]
fn any_other_character_after_escape_is_its_key_with_alt() {
    let mut kb = KeyBoard::new(Script::new(vec![]));
    assert!(kb.get_chars(vec![0x1b]));
    assert_eq!(kb.step(), None);
    assert_eq!(kb.parse_alt('q'), Some(Ok(Key::Alt('q'))));
    assert_eq!(kb.state(), State::Start);
    assert!(kb.get_chars(vec![0x1b]));
    assert_eq!(kb.step(), None);
    assert_eq!(kb.parse_alt('\u{19}'), Some(Ok(Key::CtrlAlt('y'))));
}
