//! The keyboard: from the bytes of a terminal to keys.
//!
//! A [`KeyBoard`] owns the input device and a queue of the characters that
//! have arrived. [`KeyBoard::next_key`] and [`KeyBoard::next_key_timeout`]
//! decode the queue, read from the device at most once, and decode again.
//! Where a sequence is still incomplete after that read they return `None`,
//! and the next call goes on where this one stopped:
//!
//! ```text
//! loop {
//!     if let Some(outcome) = keyboard.next_key() {
//!         return outcome;
//!     }
//! }
//! ```
//!
//! What each sequence means is defined in [`crate::sequence`]; every
//! function here is proved to follow that definition.

use vstd::prelude::*;
use vstd::utf8::{decode_utf8, valid_utf8};
use std::collections::VecDeque;
use std::time::Duration;
use crate::decimal::{capped, find_char, scan_number, scan_triple, NUMBER_MAX};
use crate::key::{Key, MouseButton};
use crate::sequence::{Failure, Machine, Patience, Refill, State, ESC};
use crate::sequence::{alt_key, ctrl_arrow, function_key, plain_key, report_event, rxvt_event};
use crate::sequence::{sgr_event, x10_key};

verus! {

/// The milliseconds that `Wait::Pause` stands for: the time within which the
/// rest of an escape sequence follows its `ESC`.
pub const KEY_WAIT: u64 = 10;

/// How long a read from the device may wait for input.
#[derive(Clone, Copy, Debug, PartialEq, Eq)]
pub enum Wait {
    /// Until input arrives or the wait is interrupted.
    Forever,
    /// No longer than this; a zero duration means one look and no waiting.
    Timeout(Duration),
    /// `KEY_WAIT` milliseconds.
    Pause,
    /// One look and no waiting.
    Poll,
}

/// An input device.
///
/// `read_ready` does the whole of one read: it forgets interrupts that came
/// before, waits until the device can be read, an interrupt arrives or the
/// time is over, and then takes all the bytes that the device has, without
/// blocking. An interrupt or a timeout is no error: the read returns the
/// bytes that are there, which may be none.
pub trait ReadAndAsRawFd {
    fn read_ready(&mut self, wait: Wait) -> Result<Vec<u8>, String>;
}

/// Why no key was returned.
#[derive(Debug, PartialEq, Eq)]
pub enum KeyError {
    /// Nothing arrived within the time allowed.
    NoData,
    /// The device failed; its message.
    Device(String),
    /// The device sent bytes that are not UTF-8.
    InvalidUtf8,
    /// A sequence that stands for no key; the characters read, from `ESC` on.
    Unsupported(Vec<char>),
}

impl View for KeyError {
    type V = Failure;

    open spec fn view(&self) -> Failure {
        match self {
            KeyError::NoData => Failure::NoData,
            KeyError::Device(message) => Failure::Device(message@),
            KeyError::InvalidUtf8 => Failure::InvalidUtf8,
            KeyError::Unsupported(seen) => Failure::Unsupported(seen@),
        }
    }
}

/// The outcome of a sequence as the machine states it.
pub open spec fn outcome_view(r: Result<Key, KeyError>) -> Result<Key, Failure> {
    match r {
        Ok(k) => Ok(k),
        Err(e) => Err(e@),
    }
}

/// The result of a call as the machine states it.
pub open spec fn progress_view(r: Option<Result<Key, KeyError>>) -> Option<Result<Key, Failure>> {
    match r {
        Some(o) => Some(outcome_view(o)),
        None => None,
    }
}

/// What the device returned as the machine sees it.
pub open spec fn refill_view(r: Result<Vec<u8>, String>) -> Refill {
    match r {
        Ok(bytes) => Refill::of_bytes(bytes@),
        Err(message) => Refill::Failed(message@),
    }
}

/// The wait that stands for a patience, given the wait of the caller.
pub open spec fn wait_of(patience: Patience, caller: Wait) -> Wait {
    match patience {
        Patience::Caller => caller,
        Patience::Short => Wait::Pause,
        Patience::Never => Wait::Poll,
    }
}

/// `String::from_utf8` of std: the text that `bytes` encode, if they are
/// UTF-8. The contract states std's documentation in vstd's terms: the call
/// succeeds on valid UTF-8 and on nothing else, and the characters of the
/// text are those that the bytes decode to.
#[verifier::external_body]
fn utf8_text(bytes: Vec<u8>) -> (r: Option<String>)
    ensures
        r is Some == valid_utf8(bytes@),
        r matches Some(s) ==> s@ == decode_utf8(bytes@),
{
    String::from_utf8(bytes).ok()
}

/// The key of a character that arrives on its own.
pub fn plain(c: char) -> (k: Key)
    ensures
        k == plain_key(c),
{
    let n: u32 = c as u32;
    if n == 0x09 {
        Key::Tab
    } else if n == 0x0d {
        Key::Enter
    } else if n == 0x7f {
        Key::Backspace
    } else if n == 0 {
        Key::Ctrl(' ')
    } else if n < 0x1b {
        Key::Ctrl(((n as u8) + 0x60) as char)
    } else {
        Key::Char(c)
    }
}

/// The key of a character that follows `ESC`: the key of the character on
/// its own, with Alt. A second `ESC` is no such key; it begins a sequence of
/// its own, which [`KeyBoard::parse_alt`] reads.
pub fn alt(c: char) -> (k: Key)
    requires
        c != ESC,
    ensures
        k == alt_key(c),
{
    let n: u32 = c as u32;
    if n == 0x09 {
        Key::AltTab
    } else if n == 0x0d {
        Key::AltEnter
    } else if n == 0x7f {
        Key::AltBackspace
    } else if n == 0 {
        Key::CtrlAlt(' ')
    } else if n < 0x1b {
        Key::CtrlAlt(((n as u8) + 0x60) as char)
    } else {
        Key::Alt(c)
    }
}

/// The arrow with Ctrl of a letter from `A` to `D`.
fn arrow_with_ctrl(c: char) -> (k: Option<Key>)
    ensures
        k == ctrl_arrow(c),
{
    match c {
        'A' => Some(Key::CtrlUp),
        'B' => Some(Key::CtrlDown),
        'C' => Some(Key::CtrlRight),
        'D' => Some(Key::CtrlLeft),
        _ => None,
    }
}

/// The function key of the number `n`.
fn function(n: u32) -> (k: Option<Key>)
    ensures
        forall|m: nat| capped(m) == n ==> k == function_key(m),
{
    if 11 <= n && n <= 15 {
        Some(Key::F((n - 10) as u8))
    } else if 17 <= n && n <= 21 {
        Some(Key::F((n - 11) as u8))
    } else if 23 <= n && n <= 24 {
        Some(Key::F((n - 12) as u8))
    } else {
        None
    }
}

/// The event of an X10 mouse report.
fn x10_mouse(cb: char, cx: char, cy: char) -> (k: Key)
    ensures
        k == x10_key(cb, cx, cy),
{
    let b: u32 = cb as u32 % 256;
    let vx: u32 = cx as u32 % 256;
    let vy: u32 = cy as u32 % 256;
    let x: u16 = if vx >= 32 {
        (vx - 32) as u16
    } else {
        0
    };
    let y: u16 = if vy >= 32 {
        (vy - 32) as u16
    } else {
        0
    };
    let wheel = (b / 64) % 2 == 1;
    if b % 4 == 0 {
        Key::MousePress(if wheel { MouseButton::WheelUp } else { MouseButton::Left }, x, y)
    } else if b % 4 == 1 {
        Key::MousePress(if wheel { MouseButton::WheelDown } else { MouseButton::Middle }, x, y)
    } else if b % 4 == 2 {
        Key::MousePress(MouseButton::Right, x, y)
    } else {
        Key::MouseRelease(x, y)
    }
}

/// The event of an rxvt mouse report.
fn rxvt_mouse(b: u32, x: u32, y: u32) -> (k: Option<Key>)
    ensures
        forall|nb: nat, nx: nat, ny: nat|
            capped(nb) == b && capped(nx) == x && capped(ny) == y ==> k == rxvt_event(nb, nx, ny),
{
    if x > NUMBER_MAX || y > NUMBER_MAX {
        return None;
    }
    let x: u16 = x as u16;
    let y: u16 = y as u16;
    if b == 32 {
        Some(Key::MousePress(MouseButton::Left, x, y))
    } else if b == 33 {
        Some(Key::MousePress(MouseButton::Middle, x, y))
    } else if b == 34 {
        Some(Key::MousePress(MouseButton::Right, x, y))
    } else if b == 35 {
        Some(Key::MouseRelease(x, y))
    } else if b == 64 {
        Some(Key::MouseHold(x, y))
    } else if b == 96 || b == 97 {
        Some(Key::MousePress(MouseButton::WheelUp, x, y))
    } else {
        None
    }
}

/// The event of an SGR mouse report.
fn sgr_mouse_event(b: u32, x: u32, y: u32, last: char) -> (k: Option<Key>)
    ensures
        forall|nb: nat, nx: nat, ny: nat|
            capped(nb) == b && capped(nx) == x && capped(ny) == y ==> k == sgr_event(
                nb,
                nx,
                ny,
                last,
            ),
{
    if x < 1 || x > NUMBER_MAX || y < 1 || y > NUMBER_MAX {
        return None;
    }
    let col: u16 = (x - 1) as u16;
    let row: u16 = (y - 1) as u16;
    if b == 32 {
        return Some(Key::MouseHold(col, row));
    }
    let button = if b == 0 {
        MouseButton::Left
    } else if b == 1 {
        MouseButton::Middle
    } else if b == 2 {
        MouseButton::Right
    } else if b == 64 {
        MouseButton::WheelUp
    } else if b == 65 {
        MouseButton::WheelDown
    } else {
        return None;
    };
    if last == 'M' {
        Some(Key::MousePress(button, col, row))
    } else {
        Some(Key::MouseRelease(col, row))
    }
}

/// The key of a cursor position report.
fn report_position(row: u32, col: u32) -> (k: Option<Key>)
    ensures
        forall|nr: nat, nc: nat| capped(nr) == row && capped(nc) == col ==> k == report_event(nr, nc),
{
    if row < 1 || row > NUMBER_MAX || col < 1 || col > NUMBER_MAX {
        None
    } else {
        Some(Key::CursorPos((row - 1) as u16, (col - 1) as u16))
    }
}

/// The decoder of the keys of a terminal, with its input device.
pub struct KeyBoard<R: ReadAndAsRawFd> {
    file: R,
    buf: VecDeque<char>,
    state: State,
    alt: bool,
    seen: Vec<char>,
    text: VecDeque<char>,
}

impl<R: ReadAndAsRawFd> View for KeyBoard<R> {
    type V = Machine;

    closed spec fn view(&self) -> Machine {
        Machine {
            queue: self.buf@,
            state: self.state,
            alt: self.alt,
            seen: self.seen@,
            text: self.text@,
        }
    }
}

impl<R: ReadAndAsRawFd> KeyBoard<R> {
    /// A keyboard on `file`, with nothing read yet.
    pub fn new(file: R) -> (keyboard: Self)
        ensures
            keyboard@ == Machine::idle(seq![]),
    {
        KeyBoard {
            file,
            buf: VecDeque::new(),
            state: State::Start,
            alt: false,
            seen: Vec::new(),
            text: VecDeque::new(),
        }
    }

    /// The state of the machine.
    pub fn state(&self) -> (s: State)
        ensures
            s == self@.state,
    {
        self.state
    }

    /// How many characters wait in the queue.
    pub fn queued(&self) -> (n: usize)
        ensures
            n == self@.queue.len(),
    {
        self.buf.len()
    }

    /// Puts the characters that `bytes` encode at the end of the queue.
    /// Returns `false`, and leaves the queue as it is, if `bytes` are not
    /// UTF-8.
    pub fn get_chars(&mut self, bytes: Vec<u8>) -> (ok: bool)
        ensures
            ok == valid_utf8(bytes@),
            ok ==> final(self)@ == (Machine {
                queue: old(self)@.queue + decode_utf8(bytes@),
                ..old(self)@
            }),
            !ok ==> final(self)@ == old(self)@,
    {
        broadcast use vstd::string::group_string_axioms;

        let ghost before = self.buf@;
        match utf8_text(bytes) {
            Some(text) => {
                let s = text.as_str();
                for c in it: s.chars()
                    invariant
                        it.seq() == s@,
                        self.buf@ == before + s@.take(it.index() as int),
                        self.state == old(self).state,
                        self.alt == old(self).alt,
                        self.seen == old(self).seen,
                        self.text == old(self).text,
                {
                    self.buf.push_back(c);
                }
                assert(s@.take(s@.len() as int) == s@);
                true
            },
            None => false,
        }
    }

    /// Reads the next character of the queue.
    fn next_char(&mut self) -> (c: char)
        requires
            old(self)@.queue.len() > 0,
        ensures
            c == old(self)@.queue[0],
            final(self)@ == old(self)@.take(1),
    {
        let c = match self.buf.pop_front() {
            Some(c) => c,
            None => ESC,
        };
        self.seen.push(c);
        assert(self@.queue =~= old(self)@.queue.skip(1));
        assert(self@.seen =~= old(self)@.seen + old(self)@.queue.take(1));
        c
    }

    /// Reads the next `n` characters of the queue.
    fn next_chars(&mut self, n: usize)
        requires
            n <= old(self)@.queue.len(),
        ensures
            final(self)@ == old(self)@.take(n as int),
    {
        let mut i: usize = 0;
        assert(self@.queue =~= old(self)@.queue.skip(0));
        assert(self@.seen =~= old(self)@.seen + old(self)@.queue.take(0));
        while i < n
            invariant
                i <= n <= old(self)@.queue.len(),
                self@ == old(self)@.take(i as int),
            decreases n - i,
        {
            self.next_char();
            i += 1;
            assert(self@.queue =~= old(self)@.queue.skip(i as int));
            assert(self@.seen =~= old(self)@.seen + old(self)@.queue.take(i as int));
        }
    }

    /// Forgets the sequence that was being read; the queue stays.
    fn reset(&mut self)
        ensures
            final(self)@ == Machine::idle(old(self)@.queue),
    {
        self.state = State::Start;
        self.alt = false;
        self.seen = Vec::new();
        self.text.clear();
    }

    /// Goes on in `state`.
    fn go(&mut self, state: State) -> (r: Option<Result<Key, KeyError>>)
        ensures
            (final(self)@, progress_view(r)) == old(self)@.go(state),
    {
        self.state = state;
        None
    }

    /// Ends the sequence with `key`, or as one that stands for no key.
    fn settle(&mut self, key: Option<Key>) -> (r: Option<Result<Key, KeyError>>)
        ensures
            (final(self)@, progress_view(r)) == old(self)@.settle(key),
    {
        let key = match key {
            Some(k) => if self.alt {
                match k {
                    Key::Up => Some(Key::AltUp),
                    Key::Down => Some(Key::AltDown),
                    Key::Left => Some(Key::AltLeft),
                    Key::Right => Some(Key::AltRight),
                    Key::PageUp => Some(Key::AltPageUp),
                    Key::PageDown => Some(Key::AltPageDown),
                    _ => None,
                }
            } else {
                Some(k)
            },
            None => None,
        };
        let mut seen: Vec<char> = Vec::new();
        std::mem::swap(&mut self.seen, &mut seen);
        self.reset();
        match key {
            Some(k) => Some(Ok(k)),
            None => Some(Err(KeyError::Unsupported(seen))),
        }
    }

    /// Ends the sequence with an error.
    fn fail(&mut self, error: KeyError) -> (r: Option<Result<Key, KeyError>>)
        ensures
            (final(self)@, progress_view(r)) == old(self)@.fail(error@),
    {
        self.reset();
        Some(Err(error))
    }

    /// After `ESC [`: reads a cursor position report, if the queue begins
    /// with one.
    fn parse_cursor_report(&mut self) -> (r: Option<Result<Key, KeyError>>)
        ensures
            (final(self)@, progress_view(r)) == old(self)@.parse_cursor_report(),
    {
        let n = self.buf.len();
        assert(self.buf@.take(n as int) =~= self.buf@);
        let i = find_char(&self.buf, ';', 0, n);
        if i >= n {
            return self.go(State::Csi);
        }
        let j = find_char(&self.buf, 'R', i + 1, n);
        if j >= n {
            return self.go(State::Csi);
        }
        match (scan_number(&self.buf, 0, i), scan_number(&self.buf, i + 1, j)) {
            (Some(row), Some(col)) => {
                self.next_chars(j + 1);
                self.settle(report_position(row, col))
            },
            _ => self.go(State::Csi),
        }
    }

    /// After `ESC [ <`: reads an SGR mouse report, if its last character is
    /// in the queue.
    fn sgr_mouse(&mut self) -> (r: Option<Result<Key, KeyError>>)
        ensures
            (final(self)@, progress_view(r)) == old(self)@.sgr_mouse(),
    {
        let n = self.buf.len();
        assert(self.buf@.take(n as int) =~= self.buf@);
        let lower = find_char(&self.buf, 'm', 0, n);
        let upper = find_char(&self.buf, 'M', 0, n);
        let end = if lower <= upper {
            lower
        } else {
            upper
        };
        if end >= n {
            return self.settle(None);
        }
        let last = self.buf[end];
        let key = match scan_triple(&self.buf, end) {
            Some((b, x, y)) => sgr_mouse_event(b, x, y, last),
            None => None,
        };
        self.next_chars(end + 1);
        self.settle(key)
    }

    /// The first character of a sequence.
    fn first_char(&mut self, c: char) -> (r: Option<Result<Key, KeyError>>)
        ensures
            (final(self)@, progress_view(r)) == old(self)@.first_char(c),
    {
        if c == ESC {
            self.go(State::Escape)
        } else {
            self.settle(Some(plain(c)))
        }
    }

    /// A character after `ESC` that begins neither `ESC [` nor `ESC O`. A
    /// second `ESC` begins a sequence that goes on with `[`, and whose arrow
    /// or page key then comes with Alt; any other character is its own key
    /// with Alt, and the sequence is over.
    pub fn parse_alt(&mut self, c: char) -> (r: Option<Result<Key, KeyError>>)
        ensures
            (final(self)@, progress_view(r)) == old(self)@.parse_alt(c),
    {
        if c == ESC {
            self.go(State::EscEsc)
        } else {
            self.settle(Some(alt(c)))
        }
    }

    /// The character after `ESC`, or after `ESC ESC`.
    fn escape_sequence(&mut self, c: char) -> (r: Option<Result<Key, KeyError>>)
        ensures
            (final(self)@, progress_view(r)) == old(self)@.escape_sequence(c),
    {
        match self.state {
            State::EscEsc => if c == '[' {
                self.alt = true;
                self.parse_cursor_report()
            } else {
                self.settle(None)
            },
            _ => if c == '[' {
                self.parse_cursor_report()
            } else if c == 'O' {
                self.go(State::Ss3)
            } else {
                self.parse_alt(c)
            },
        }
    }

    /// A character after `ESC [`.
    fn escape_csi(&mut self, c: char) -> (r: Option<Result<Key, KeyError>>)
        ensures
            (final(self)@, progress_view(r)) == old(self)@.escape_csi(c),
    {
        match self.state {
            State::Linux => self.settle(
                match c {
                    'A' => Some(Key::F(1)),
                    'B' => Some(Key::F(2)),
                    'C' => Some(Key::F(3)),
                    'D' => Some(Key::F(4)),
                    'E' => Some(Key::F(5)),
                    _ => None,
                },
            ),
            State::Mouse0 => self.go(State::Mouse1(c)),
            State::Mouse1(cb) => self.go(State::Mouse2(cb, c)),
            State::Mouse2(cb, cx) => self.settle(Some(x10_mouse(cb, cx, c))),
            _ => match c {
                '1'..='8' => self.go(State::Extended(c)),
                '[' => self.go(State::Linux),
                'M' => self.go(State::Mouse0),
                '<' => self.sgr_mouse(),
                'A' => self.settle(Some(Key::Up)),
                'B' => self.settle(Some(Key::Down)),
                'C' => self.settle(Some(Key::Right)),
                'D' => self.settle(Some(Key::Left)),
                'H' => self.settle(Some(Key::Home)),
                'F' => self.settle(Some(Key::End)),
                'Z' => self.settle(Some(Key::BackTab)),
                _ => self.settle(None),
            },
        }
    }

    /// A character after `ESC [` and a digit from 1 to 8.
    fn extended_escape(&mut self, c: char) -> (r: Option<Result<Key, KeyError>>)
        ensures
            (final(self)@, progress_view(r)) == old(self)@.extended_escape(c),
    {
        match self.state {
            State::Extended(d) => if c == '~' {
                self.settle(
                    match d {
                        '1' | '7' => Some(Key::Home),
                        '2' => Some(Key::Insert),
                        '3' => Some(Key::Delete),
                        '4' | '8' => Some(Key::End),
                        '5' => Some(Key::PageUp),
                        '6' => Some(Key::PageDown),
                        _ => None,
                    },
                )
            } else if c >= '0' && c <= '9' {
                self.text.clear();
                self.text.push_back(d);
                self.text.push_back(c);
                assert(self.text@ =~= seq![d, c]);
                self.go(State::Numeric)
            } else if c == ';' {
                self.go(State::Modifier(d))
            } else if d == '5' {
                self.settle(arrow_with_ctrl(c))
            } else {
                self.settle(None)
            },
            State::Modifier(d) => if c >= '0' && c <= '9' {
                self.go(State::Modifier2(d, c))
            } else {
                self.settle(None)
            },
            State::Modifier2(d, m) => if d == '1' {
                self.settle(
                    match (m, c) {
                        ('5', _) => arrow_with_ctrl(c),
                        ('4', 'A') => Some(Key::AltShiftUp),
                        ('4', 'B') => Some(Key::AltShiftDown),
                        ('4', 'C') => Some(Key::AltShiftRight),
                        ('4', 'D') => Some(Key::AltShiftLeft),
                        ('3', 'H') => Some(Key::AltHome),
                        ('3', 'F') => Some(Key::AltEnd),
                        ('2', 'A') => Some(Key::ShiftUp),
                        ('2', 'B') => Some(Key::ShiftDown),
                        ('2', 'C') => Some(Key::ShiftRight),
                        ('2', 'D') => Some(Key::ShiftLeft),
                        _ => None,
                    },
                )
            } else {
                self.settle(None)
            },
            _ => if c == 'M' {
                let n = self.text.len();
                assert(self.text@.take(n as int) =~= self.text@);
                let key = match scan_triple(&self.text, n) {
                    Some((b, x, y)) => rxvt_mouse(b, x, y),
                    None => None,
                };
                self.settle(key)
            } else if c == '~' {
                let n = self.text.len();
                assert(self.text@.subrange(0, n as int) =~= self.text@);
                let key = match scan_number(&self.text, 0, n) {
                    Some(v) => function(v),
                    None => None,
                };
                self.settle(key)
            } else {
                self.text.push_back(c);
                self.go(State::Numeric)
            },
        }
    }

    /// The character after `ESC O`.
    fn escape_o(&mut self, c: char) -> (r: Option<Result<Key, KeyError>>)
        ensures
            (final(self)@, progress_view(r)) == old(self)@.escape_o(c),
    {
        self.settle(
            match c {
                'A' => Some(Key::Up),
                'B' => Some(Key::Down),
                'C' => Some(Key::Right),
                'D' => Some(Key::Left),
                'F' => Some(Key::End),
                'H' => Some(Key::Home),
                'P' => Some(Key::F(1)),
                'Q' => Some(Key::F(2)),
                'R' => Some(Key::F(3)),
                'S' => Some(Key::F(4)),
                'a' => Some(Key::CtrlUp),
                'b' => Some(Key::CtrlDown),
                'c' => Some(Key::CtrlRight),
                'd' => Some(Key::CtrlLeft),
                _ => None,
            },
        )
    }

    /// Reads one character from the queue.
    pub fn step(&mut self) -> (r: Option<Result<Key, KeyError>>)
        requires
            old(self)@.queue.len() > 0,
        ensures
            (final(self)@, progress_view(r)) == old(self)@.step(),
    {
        let c = self.next_char();
        match self.state {
            State::Start => self.first_char(c),
            State::Escape | State::EscEsc => self.escape_sequence(c),
            State::Csi | State::Linux | State::Mouse0 | State::Mouse1(_) | State::Mouse2(
                _,
                _,
            ) => self.escape_csi(c),
            State::Extended(_) | State::Numeric | State::Modifier(_) | State::Modifier2(
                _,
                _,
            ) => self.extended_escape(c),
            State::Ss3 => self.escape_o(c),
        }
    }

    /// Reads characters until a sequence has come to its end or the queue is
    /// empty. Returns `None` in the second case.
    pub fn decode(&mut self) -> (r: Option<Result<Key, KeyError>>)
        ensures
            (final(self)@, progress_view(r)) == old(self)@.decode(),
    {
        while self.buf.len() > 0
            invariant
                self@.decode() == old(self)@.decode(),
            decreases self@.queue.len(),
        {
            proof {
                self@.lemma_step_shrinks();
            }
            let r = self.step();
            if r.is_some() {
                return r;
            }
        }
        None
    }

    /// The device had nothing to read.
    fn starve(&mut self) -> (r: Option<Result<Key, KeyError>>)
        ensures
            (final(self)@, progress_view(r)) == old(self)@.starve(),
    {
        match self.state {
            State::Start => self.fail(KeyError::NoData),
            State::Escape | State::EscEsc => {
                self.reset();
                Some(Ok(Key::ESC))
            },
            _ => if self.alt {
                self.settle(None)
            } else {
                self.fail(KeyError::NoData)
            },
        }
    }

    /// Goes on after a read from the device that returned `refill`.
    pub fn resume(&mut self, refill: Result<Vec<u8>, String>) -> (r: Option<Result<Key, KeyError>>)
        ensures
            (final(self)@, progress_view(r)) == old(self)@.resume(refill_view(refill)),
    {
        match refill {
            Err(message) => self.fail(KeyError::Device(message)),
            Ok(bytes) => {
                if !self.get_chars(bytes) {
                    return self.fail(KeyError::InvalidUtf8);
                }
                if self.buf.len() == 0 {
                    self.starve()
                } else {
                    self.decode()
                }
            },
        }
    }

    /// The wait of the read that brings the next character.
    pub fn wait_for(&self, caller: Wait) -> (w: Wait)
        ensures
            w == wait_of(self@.patience(), caller),
    {
        match self.state {
            State::Start => caller,
            State::Escape | State::EscEsc => Wait::Pause,
            _ => Wait::Poll,
        }
    }

    /// Decodes the queue; where that settles nothing, reads from the device
    /// once, waiting as `wait_for` says, and goes on with what came.
    fn advance(&mut self, caller: Wait) -> (r: Option<Result<Key, KeyError>>)
        ensures
            old(self)@.decode().1 is Some ==> (final(self)@, progress_view(r)) == old(
                self,
            )@.decode(),
            old(self)@.decode().1 is None ==> exists|refill: Refill|
                (final(self)@, progress_view(r)) == old(self)@.decode().0.resume(refill),
    {
        let first = self.decode();
        if first.is_some() {
            return first;
        }
        let wait = self.wait_for(caller);
        let refill = self.file.read_ready(wait);
        let ghost witness = refill_view(refill);
        let r = self.resume(refill);
        assert((self@, progress_view(r)) == old(self)@.decode().0.resume(witness));
        r
    }

    /// The next key, waiting for the first character of its sequence as
    /// long as it takes.
    ///
    /// Returns the outcome of the sequence at the front of the queue if the
    /// queue holds it whole. Otherwise reads from the device once and
    /// returns what `resume` makes of the read: `None` where the sequence is
    /// still incomplete.
    pub fn next_key(&mut self) -> (r: Option<Result<Key, KeyError>>)
        ensures
            old(self)@.decode().1 is Some ==> (final(self)@, progress_view(r)) == old(
                self,
            )@.decode(),
            old(self)@.decode().1 is None ==> exists|refill: Refill|
                (final(self)@, progress_view(r)) == old(self)@.decode().0.resume(refill),
    {
        self.advance(Wait::Forever)
    }

    /// The next key, waiting for the first character of its sequence no
    /// longer than `timeout`.
    ///
    /// Returns the outcome of the sequence at the front of the queue if the
    /// queue holds it whole. Otherwise reads from the device once and
    /// returns what `resume` makes of the read: `None` where the sequence is
    /// still incomplete.
    pub fn next_key_timeout(&mut self, timeout: Duration) -> (r: Option<Result<Key, KeyError>>)
        ensures
            old(self)@.decode().1 is Some ==> (final(self)@, progress_view(r)) == old(
                self,
            )@.decode(),
            old(self)@.decode().1 is None ==> exists|refill: Refill|
                (final(self)@, progress_view(r)) == old(self)@.decode().0.resume(refill),
    {
        self.advance(Wait::Timeout(timeout))
    }
}

} // verus!
