//! What the characters of a terminal mean.
//!
//! A terminal sends a key either as one character or as an escape sequence:
//! `ESC`, an introducer, and a few characters more. This module defines, as
//! a state machine over the queue of characters that have arrived, which key
//! each sequence stands for. The machine never guesses: a sequence that it
//! does not know ends in a failure that carries the characters read.
//!
//! [`Machine::step`] reads one character, [`Machine::decode`] reads until a
//! key is settled or the queue is empty, and [`Machine::resume`] says how a
//! new read from the device, successful or not, goes on from there.

use vstd::prelude::*;
use vstd::utf8::{decode_utf8, encode_utf8, is_ascii_chars, valid_utf8};
use vstd::utf8::{encode_utf8_decode_utf8, encode_utf8_valid_utf8, is_ascii_chars_encode_utf8};
use crate::decimal::{digits, find, is_digit, number, triple};
use crate::decimal::{lemma_digits_are_digits, lemma_find, lemma_find_at, lemma_value_of_digits};
use crate::key::{Key, MouseButton};

verus! {

pub const ESC: char = '\u{1b}';

pub const DEL: char = '\u{7f}';

/// How much of a sequence has been read.
#[derive(Clone, Copy, Debug, PartialEq, Eq, Structural)]
pub enum State {
    /// Nothing.
    Start,
    /// `ESC`.
    Escape,
    /// `ESC ESC`.
    EscEsc,
    /// `ESC [`, and what follows is no cursor position report.
    Csi,
    /// `ESC [ [`, the function keys of the Linux console.
    Linux,
    /// `ESC [ M`, an X10 mouse report of three characters.
    Mouse0,
    /// `ESC [ M` and the button.
    Mouse1(char),
    /// `ESC [ M`, the button and the column.
    Mouse2(char, char),
    /// `ESC [` and a digit from 1 to 8.
    Extended(char),
    /// `ESC [` and two or more characters of a number or a list of numbers.
    Numeric,
    /// `ESC [`, a digit and `;`.
    Modifier(char),
    /// `ESC [`, a digit, `;` and the digit of the modifier.
    Modifier2(char, char),
    /// `ESC O`.
    Ss3,
}

/// Why no key was returned.
pub enum Failure {
    /// Nothing arrived within the time allowed.
    NoData,
    /// The device failed; its message.
    Device(Seq<char>),
    /// The device sent bytes that are not UTF-8.
    InvalidUtf8,
    /// A sequence that stands for no key; the characters read, from `ESC` on.
    Unsupported(Seq<char>),
}

/// What a read from the device brought.
pub enum Refill {
    /// These characters, possibly none.
    Chars(Seq<char>),
    /// Bytes that are not UTF-8.
    Garbage,
    /// An error of the device; its message.
    Failed(Seq<char>),
}

impl Refill {
    /// What a read that brought `bytes` brought.
    pub open spec fn of_bytes(bytes: Seq<u8>) -> Refill {
        if valid_utf8(bytes) {
            Refill::Chars(decode_utf8(bytes))
        } else {
            Refill::Garbage
        }
    }
}

/// ASCII text as bytes.
pub open spec fn ascii(text: Seq<char>) -> Seq<u8> {
    text.map_values(|c: char| c as u8)
}

/// How long a read from the device may wait.
pub enum Patience {
    /// As long as the caller of the keyboard allows.
    Caller,
    /// The short time within which the rest of an escape sequence follows.
    Short,
    /// Not at all: the rest of the sequence is there or missing.
    Never,
}

/// The letter of a control character: `a` for 1, `z` for 26, a space for 0.
pub open spec fn ctrl_letter(c: char) -> char
    recommends
        (c as u32) < 0x1b,
{
    if c == '\0' {
        ' '
    } else {
        (c as u32 + 0x60) as char
    }
}

/// The key of a character that arrives on its own.
pub open spec fn plain_key(c: char) -> Key {
    if c == '\t' {
        Key::Tab
    } else if c == '\r' {
        Key::Enter
    } else if c == DEL {
        Key::Backspace
    } else if (c as u32) < 0x1b {
        Key::Ctrl(ctrl_letter(c))
    } else {
        Key::Char(c)
    }
}

/// A key with Alt: Tab, Enter and Backspace have keys of their own with
/// Alt, a key with Ctrl becomes one with Ctrl and Alt, and a character
/// becomes the character with Alt.
pub open spec fn with_alt(k: Key) -> Key {
    match k {
        Key::Tab => Key::AltTab,
        Key::Enter => Key::AltEnter,
        Key::Backspace => Key::AltBackspace,
        Key::Ctrl(c) => Key::CtrlAlt(c),
        Key::Char(c) => Key::Alt(c),
        other => other,
    }
}

/// The key of a character other than `ESC` that follows `ESC`: the key of
/// the character on its own, with Alt.
pub open spec fn alt_key(c: char) -> Key
    recommends
        c != ESC,
{
    with_alt(plain_key(c))
}

/// The key of `ESC [` and one letter.
pub open spec fn csi_key(c: char) -> Option<Key> {
    match c {
        'A' => Some(Key::Up),
        'B' => Some(Key::Down),
        'C' => Some(Key::Right),
        'D' => Some(Key::Left),
        'H' => Some(Key::Home),
        'F' => Some(Key::End),
        'Z' => Some(Key::BackTab),
        _ => None,
    }
}

/// The key of `ESC [ [` and one letter.
pub open spec fn linux_key(c: char) -> Option<Key> {
    match c {
        'A' => Some(Key::F(1)),
        'B' => Some(Key::F(2)),
        'C' => Some(Key::F(3)),
        'D' => Some(Key::F(4)),
        'E' => Some(Key::F(5)),
        _ => None,
    }
}

/// The key of `ESC O` and one letter.
pub open spec fn ss3_key(c: char) -> Option<Key> {
    match c {
        'A' => Some(Key::Up),
        'B' => Some(Key::Down),
        'C' => Some(Key::Right),
        'D' => Some(Key::Left),
        'F' => Some(Key::End),
        'H' => Some(Key::Home),
        'P' => Some(Key::F(1)),
        'Q' => Some(Key::F(2)),
        'R' => Some(Key::F(3)),
        'S' => Some(Key::F(4)),
        'a' => Some(Key::CtrlUp),
        'b' => Some(Key::CtrlDown),
        'c' => Some(Key::CtrlRight),
        'd' => Some(Key::CtrlLeft),
        _ => None,
    }
}

/// The key of `ESC [`, the digit `d` and `~`.
pub open spec fn tilde_key(d: char) -> Option<Key> {
    match d {
        '1' | '7' => Some(Key::Home),
        '2' => Some(Key::Insert),
        '3' => Some(Key::Delete),
        '4' | '8' => Some(Key::End),
        '5' => Some(Key::PageUp),
        '6' => Some(Key::PageDown),
        _ => None,
    }
}

/// The arrow with Ctrl that a letter from `A` to `D` stands for.
pub open spec fn ctrl_arrow(c: char) -> Option<Key> {
    match c {
        'A' => Some(Key::CtrlUp),
        'B' => Some(Key::CtrlDown),
        'C' => Some(Key::CtrlRight),
        'D' => Some(Key::CtrlLeft),
        _ => None,
    }
}

/// The key of `ESC [ 1 ;`, the modifier `m` and the letter `c`.
pub open spec fn modified_key(m: char, c: char) -> Option<Key> {
    match (m, c) {
        ('5', _) => ctrl_arrow(c),
        ('4', 'A') => Some(Key::AltShiftUp),
        ('4', 'B') => Some(Key::AltShiftDown),
        ('4', 'C') => Some(Key::AltShiftRight),
        ('4', 'D') => Some(Key::AltShiftLeft),
        ('3', 'H') => Some(Key::AltHome),
        ('3', 'F') => Some(Key::AltEnd),
        ('2', 'A') => Some(Key::ShiftUp),
        ('2', 'B') => Some(Key::ShiftDown),
        ('2', 'C') => Some(Key::ShiftRight),
        ('2', 'D') => Some(Key::ShiftLeft),
        _ => None,
    }
}

/// The function key of `ESC [`, the number `n` and `~`.
pub open spec fn function_key(n: nat) -> Option<Key> {
    if 11 <= n <= 15 {
        Some(Key::F((n - 10) as u8))
    } else if 17 <= n <= 21 {
        Some(Key::F((n - 11) as u8))
    } else if 23 <= n <= 24 {
        Some(Key::F((n - 12) as u8))
    } else {
        None
    }
}

/// The key with Alt that `ESC ESC [` makes of a key of `ESC [`.
pub open spec fn alt_navigation(k: Key) -> Option<Key> {
    match k {
        Key::Up => Some(Key::AltUp),
        Key::Down => Some(Key::AltDown),
        Key::Left => Some(Key::AltLeft),
        Key::Right => Some(Key::AltRight),
        Key::PageUp => Some(Key::AltPageUp),
        Key::PageDown => Some(Key::AltPageDown),
        _ => None,
    }
}

/// The low eight bits of a character.
pub open spec fn low_byte(c: char) -> nat {
    (c as nat) % 256
}

/// A coordinate of an X10 report: the byte less 32, and 0 below that.
pub open spec fn x10_coordinate(c: char) -> u16 {
    if low_byte(c) >= 32 {
        (low_byte(c) - 32) as u16
    } else {
        0
    }
}

/// The event of `ESC [ M` and three characters. The two low bits of the
/// first name the button and 3 a release; bit 6 turns the first two buttons
/// into the two directions of the wheel.
pub open spec fn x10_key(cb: char, cx: char, cy: char) -> Key {
    let b = low_byte(cb);
    let wheel = (b / 64) % 2 == 1;
    let x = x10_coordinate(cx);
    let y = x10_coordinate(cy);
    if b % 4 == 0 {
        Key::MousePress(if wheel { MouseButton::WheelUp } else { MouseButton::Left }, x, y)
    } else if b % 4 == 1 {
        Key::MousePress(if wheel { MouseButton::WheelDown } else { MouseButton::Middle }, x, y)
    } else if b % 4 == 2 {
        Key::MousePress(MouseButton::Right, x, y)
    } else {
        Key::MouseRelease(x, y)
    }
}

/// The event of an rxvt mouse report with the button code `b` at column
/// `x` and row `y`. The coordinates are passed on as they come.
pub open spec fn rxvt_event(b: nat, x: nat, y: nat) -> Option<Key> {
    if x <= u16::MAX && y <= u16::MAX {
        if b == 32 {
            Some(Key::MousePress(MouseButton::Left, x as u16, y as u16))
        } else if b == 33 {
            Some(Key::MousePress(MouseButton::Middle, x as u16, y as u16))
        } else if b == 34 {
            Some(Key::MousePress(MouseButton::Right, x as u16, y as u16))
        } else if b == 35 {
            Some(Key::MouseRelease(x as u16, y as u16))
        } else if b == 64 {
            Some(Key::MouseHold(x as u16, y as u16))
        } else if b == 96 || b == 97 {
            Some(Key::MousePress(MouseButton::WheelUp, x as u16, y as u16))
        } else {
            None
        }
    } else {
        None
    }
}

/// The event of an rxvt mouse report, `ESC [ b ; x ; y M`.
pub open spec fn rxvt_key(text: Seq<char>) -> Option<Key> {
    match triple(text) {
        Some((b, x, y)) => rxvt_event(b, x, y),
        None => None,
    }
}

/// The button of an SGR mouse report.
pub open spec fn sgr_button(b: nat) -> Option<MouseButton> {
    if b == 0 {
        Some(MouseButton::Left)
    } else if b == 1 {
        Some(MouseButton::Middle)
    } else if b == 2 {
        Some(MouseButton::Right)
    } else if b == 64 {
        Some(MouseButton::WheelUp)
    } else if b == 65 {
        Some(MouseButton::WheelDown)
    } else {
        None
    }
}

/// The event of an SGR mouse report with the button code `b` at column `x`
/// and row `y`, which ends in `M` for a press or in `m` for a release. The
/// terminal counts columns and rows from 1; the event counts them from 0.
pub open spec fn sgr_event(b: nat, x: nat, y: nat, last: char) -> Option<Key> {
    if 1 <= x <= u16::MAX && 1 <= y <= u16::MAX {
        let col = (x - 1) as u16;
        let row = (y - 1) as u16;
        if b == 32 {
            Some(Key::MouseHold(col, row))
        } else {
            match sgr_button(b) {
                Some(button) => if last == 'M' {
                    Some(Key::MousePress(button, col, row))
                } else {
                    Some(Key::MouseRelease(col, row))
                },
                None => None,
            }
        }
    } else {
        None
    }
}

/// The event of an SGR mouse report, `ESC [ < b ; x ; y` and `M` or `m`.
pub open spec fn sgr_key(text: Seq<char>, last: char) -> Option<Key> {
    match triple(text) {
        Some((b, x, y)) => sgr_event(b, x, y, last),
        None => None,
    }
}

/// Where the first `m` or `M` of `q` stands, or the length of `q`.
pub open spec fn sgr_end(q: Seq<char>) -> int {
    let lower = find(q, 'm', 0);
    let upper = find(q, 'M', 0);
    if lower <= upper {
        lower
    } else {
        upper
    }
}

/// A cursor position report at the front of a queue: its two numbers and
/// how many characters it takes.
pub struct Report {
    pub row: nat,
    pub col: nat,
    pub len: int,
}

/// The report `row ; col R` that `q` begins with, if it begins with one.
pub open spec fn report(q: Seq<char>) -> Option<Report> {
    let i = find(q, ';', 0);
    let j = find(q, 'R', i + 1);
    if i < q.len() && j < q.len() {
        match (number(q.subrange(0, i)), number(q.subrange(i + 1, j))) {
            (Some(row), Some(col)) => Some(Report { row, col, len: j + 1 }),
            _ => None,
        }
    } else {
        None
    }
}

/// The key of a report of `row` and `col`. The terminal counts rows and
/// columns from 1; the key counts them from 0.
pub open spec fn report_event(row: nat, col: nat) -> Option<Key> {
    if 1 <= row <= u16::MAX && 1 <= col <= u16::MAX {
        Some(Key::CursorPos((row - 1) as u16, (col - 1) as u16))
    } else {
        None
    }
}

/// The decoder between two reads of a character.
pub struct Machine {
    /// The characters that have arrived and were not read yet.
    pub queue: Seq<char>,
    pub state: State,
    /// Whether the sequence began with `ESC ESC [`.
    pub alt: bool,
    /// The characters read since the last key.
    pub seen: Seq<char>,
    /// The characters of the number, or the list, that `Numeric` collects.
    pub text: Seq<char>,
}

/// A machine, and the outcome if a sequence has come to its end.
pub type Turn = (Machine, Option<Result<Key, Failure>>);

impl Machine {
    /// A machine that has read nothing of the next sequence.
    pub open spec fn idle(queue: Seq<char>) -> Machine {
        Machine { queue, state: State::Start, alt: false, seen: seq![], text: seq![] }
    }

    /// The machine after it has read `n` characters.
    pub open spec fn take(self, n: int) -> Machine {
        Machine { queue: self.queue.skip(n), seen: self.seen + self.queue.take(n), ..self }
    }

    /// The sequence is not over: go on in `state`.
    pub open spec fn go(self, state: State) -> Turn {
        (Machine { state, ..self }, None)
    }

    /// The sequence is over and stands for `key`, or for nothing. After
    /// `ESC ESC [` only the arrows and the page keys stand for anything.
    pub open spec fn settle(self, key: Option<Key>) -> Turn {
        let key = if self.alt && key is Some {
            alt_navigation(key->0)
        } else {
            key
        };
        let outcome = match key {
            Some(k) => Ok(k),
            None => Err(Failure::Unsupported(self.seen)),
        };
        (Machine::idle(self.queue), Some(outcome))
    }

    /// The sequence ends in a failure.
    pub open spec fn fail(self, failure: Failure) -> Turn {
        (Machine::idle(self.queue), Some(Err(failure)))
    }

    /// `ESC [` has been read. If the queue begins with a cursor position
    /// report, the report is read whole and is the outcome.
    pub open spec fn parse_cursor_report(self) -> Turn {
        match report(self.queue) {
            Some(r) => self.take(r.len).settle(report_event(r.row, r.col)),
            None => self.go(State::Csi),
        }
    }

    /// `ESC [ <` has been read. The report is read only if its last
    /// character is in the queue already.
    pub open spec fn sgr_mouse(self) -> Turn {
        let n = sgr_end(self.queue);
        if n < self.queue.len() {
            self.take(n + 1).settle(sgr_key(self.queue.take(n), self.queue[n]))
        } else {
            self.settle(None)
        }
    }

    /// The first character of a sequence.
    pub open spec fn first_char(self, c: char) -> Turn {
        if c == ESC {
            self.go(State::Escape)
        } else {
            self.settle(Some(plain_key(c)))
        }
    }

    /// A character after `ESC` that begins neither `ESC [` nor `ESC O`. A
    /// second `ESC` begins a sequence that goes on with `[`, and whose arrow
    /// or page key then comes with Alt; any other character is its own key
    /// with Alt.
    pub open spec fn parse_alt(self, c: char) -> Turn {
        if c == ESC {
            self.go(State::EscEsc)
        } else {
            self.settle(Some(alt_key(c)))
        }
    }

    /// The character after `ESC`, or after `ESC ESC`.
    pub open spec fn escape_sequence(self, c: char) -> Turn {
        if self.state == State::EscEsc {
            if c == '[' {
                (Machine { alt: true, ..self }).parse_cursor_report()
            } else {
                self.settle(None)
            }
        } else if c == '[' {
            self.parse_cursor_report()
        } else if c == 'O' {
            self.go(State::Ss3)
        } else {
            self.parse_alt(c)
        }
    }

    /// A character after `ESC [`, in one of the states `Csi`, `Linux`,
    /// `Mouse0`, `Mouse1` and `Mouse2`.
    pub open spec fn escape_csi(self, c: char) -> Turn {
        match self.state {
            State::Linux => self.settle(linux_key(c)),
            State::Mouse0 => self.go(State::Mouse1(c)),
            State::Mouse1(cb) => self.go(State::Mouse2(cb, c)),
            State::Mouse2(cb, cx) => self.settle(Some(x10_key(cb, cx, c))),
            _ => if '1' <= c <= '8' {
                self.go(State::Extended(c))
            } else if c == '[' {
                self.go(State::Linux)
            } else if c == 'M' {
                self.go(State::Mouse0)
            } else if c == '<' {
                self.sgr_mouse()
            } else {
                self.settle(csi_key(c))
            },
        }
    }

    /// A character after `ESC [` and a digit from 1 to 8, in one of the
    /// states `Extended`, `Numeric`, `Modifier` and `Modifier2`.
    pub open spec fn extended_escape(self, c: char) -> Turn {
        match self.state {
            State::Extended(d) => if c == '~' {
                self.settle(tilde_key(d))
            } else if '0' <= c <= '9' {
                (Machine { text: seq![d, c], ..self }).go(State::Numeric)
            } else if c == ';' {
                self.go(State::Modifier(d))
            } else if d == '5' {
                self.settle(ctrl_arrow(c))
            } else {
                self.settle(None)
            },
            State::Modifier(d) => if '0' <= c <= '9' {
                self.go(State::Modifier2(d, c))
            } else {
                self.settle(None)
            },
            State::Modifier2(d, m) => if d == '1' {
                self.settle(modified_key(m, c))
            } else {
                self.settle(None)
            },
            _ => if c == 'M' {
                self.settle(rxvt_key(self.text))
            } else if c == '~' {
                self.settle(
                    match number(self.text) {
                        Some(n) => function_key(n),
                        None => None,
                    },
                )
            } else {
                (Machine { text: self.text.push(c), ..self }).go(State::Numeric)
            },
        }
    }

    /// The character after `ESC O`.
    pub open spec fn escape_o(self, c: char) -> Turn {
        self.settle(ss3_key(c))
    }

    /// Reads one character from the queue.
    pub open spec fn step(self) -> Turn
        recommends
            self.queue.len() > 0,
    {
        let c = self.queue[0];
        let m = self.take(1);
        match self.state {
            State::Start => m.first_char(c),
            State::Escape | State::EscEsc => m.escape_sequence(c),
            State::Csi | State::Linux | State::Mouse0 | State::Mouse1(_) | State::Mouse2(
                _,
                _,
            ) => m.escape_csi(c),
            State::Extended(_) | State::Numeric | State::Modifier(_) | State::Modifier2(
                _,
                _,
            ) => m.extended_escape(c),
            State::Ss3 => m.escape_o(c),
        }
    }

    /// Reads characters until a sequence has come to its end or the queue is
    /// empty.
    pub open spec fn decode(self) -> Turn
        decreases self.queue.len(),
        via Self::decode_decreases
    {
        if self.queue.len() == 0 {
            (self, None)
        } else if self.step().1 is Some {
            self.step()
        } else {
            self.step().0.decode()
        }
    }

    #[via_fn]
    proof fn decode_decreases(self) {
        if self.queue.len() > 0 {
            self.lemma_step_shrinks();
        }
    }

    /// A step takes at least one character from the queue, and puts none in.
    pub proof fn lemma_step_shrinks(self)
        requires
            self.queue.len() > 0,
        ensures
            self.step().0.queue.len() < self.queue.len(),
    {
        let m = self.take(1);
        lemma_report_len(m.queue);
        lemma_find(m.queue, 'm', 0);
        lemma_find(m.queue, 'M', 0);
    }

    /// How long the read may wait that brings the next character.
    pub open spec fn patience(self) -> Patience {
        match self.state {
            State::Start => Patience::Caller,
            State::Escape | State::EscEsc => Patience::Short,
            _ => Patience::Never,
        }
    }

    /// The device had nothing: `ESC` on its own is the Escape key, and any
    /// other sequence is broken off.
    pub open spec fn starve(self) -> Turn {
        match self.state {
            State::Start => self.fail(Failure::NoData),
            State::Escape | State::EscEsc => (Machine::idle(self.queue), Some(Ok(Key::ESC))),
            _ => if self.alt {
                self.settle(None)
            } else {
                self.fail(Failure::NoData)
            },
        }
    }

    /// Goes on after a read from the device. Characters that came are put
    /// at the end of the queue.
    pub open spec fn resume(self, refill: Refill) -> Turn {
        match refill {
            Refill::Failed(message) => self.fail(Failure::Device(message)),
            Refill::Garbage => self.fail(Failure::InvalidUtf8),
            Refill::Chars(chars) => {
                let m = Machine { queue: self.queue + chars, ..self };
                if m.queue.len() == 0 {
                    m.starve()
                } else {
                    m.decode()
                }
            },
        }
    }
}

/// A report takes at least three characters and no more than there are.
pub proof fn lemma_report_len(q: Seq<char>)
    ensures
        report(q) matches Some(r) ==> 3 <= r.len <= q.len(),
{
    let i = find(q, ';', 0);
    lemma_find(q, ';', 0);
    if i < q.len() {
        lemma_find(q, 'R', i + 1);
    }
}

/// What a terminal answers when it is asked where the cursor is, for the
/// cursor in row `row` and column `col`, both counted from 0: `ESC [`, the
/// row counted from 1, `;`, the column counted from 1, and `R`.
pub open spec fn cursor_report(row: u16, col: u16) -> Seq<char> {
    seq![ESC, '['] + digits(row as nat + 1) + seq![';'] + digits(col as nat + 1) + seq!['R']
}

/// A queue that begins with two numbers as they are written, `;` between
/// them and `R` behind them, begins with the report of those numbers.
pub proof fn lemma_report_of_digits(row: nat, col: nat, rest: Seq<char>)
    ensures
        report(digits(row) + seq![';'] + digits(col) + seq!['R'] + rest) == Some(
            Report { row, col, len: (digits(row).len() + digits(col).len() + 2) as int },
        ),
{
    let a = digits(row);
    let b = digits(col);
    let q = a + seq![';'] + b + seq!['R'] + rest;
    let i = a.len() as int;
    let j = i + 1 + b.len();
    lemma_digits_are_digits(row);
    lemma_digits_are_digits(col);
    lemma_value_of_digits(row);
    lemma_value_of_digits(col);
    assert forall|k: int| 0 <= k < i implies q[k] != ';' by {
        assert(q[k] == a[k]);
    }
    assert(q[i] == ';');
    lemma_find_at(q, ';', 0, i);
    assert forall|k: int| i + 1 <= k < j implies q[k] != 'R' by {
        assert(q[k] == b[k - i - 1]);
    }
    assert(q[j] == 'R');
    lemma_find_at(q, 'R', i + 1, j);
    assert(q.subrange(0, i) =~= a);
    assert(q.subrange(i + 1, j) =~= b);
}

/// A character that is no control character, arriving on its own, is the
/// key of that character.
pub proof fn law_plain_character(c: char)
    requires
        c as u32 >= 0x20,
        c != DEL,
    ensures
        Machine::idle(seq![]).resume(Refill::Chars(seq![c])) == (
            Machine::idle(seq![]),
            Some(Ok::<Key, Failure>(Key::Char(c))),
        ),
{
    let m = Machine::idle(seq![c]);
    assert(Seq::<char>::empty() + seq![c] =~= seq![c]);
    assert(m.take(1).queue =~= Seq::<char>::empty());
}

/// A control character arriving on its own is Tab for 9, Enter for 13,
/// Backspace for 127; any other from 0 to 26 is Ctrl with its letter, `a`
/// for 1 up to `z` for 26, and with a space for 0.
pub proof fn law_control_character(c: char)
    requires
        c as u32 <= 0x1a || c == DEL,
    ensures
        Machine::idle(seq![]).resume(Refill::Chars(seq![c])) == (
            Machine::idle(seq![]),
            Some(
                Ok::<Key, Failure>(
                    if c as u32 == 9 {
                        Key::Tab
                    } else if c as u32 == 13 {
                        Key::Enter
                    } else if c as u32 == 127 {
                        Key::Backspace
                    } else if c as u32 == 0 {
                        Key::Ctrl(' ')
                    } else {
                        Key::Ctrl(('a' as u32 + c as u32 - 1) as char)
                    },
                ),
            ),
        ),
{
    let m = Machine::idle(seq![c]);
    assert(Seq::<char>::empty() + seq![c] =~= seq![c]);
    assert(m.take(1).queue =~= Seq::<char>::empty());
}

/// The answer of the terminal for a cursor in row `row` and column `col`,
/// arriving whole, is the key `CursorPos(row, col)`, and nothing of it is
/// left in the queue.
pub proof fn law_cursor_report_round_trip(row: u16, col: u16)
    requires
        row < u16::MAX,
        col < u16::MAX,
    ensures
        Machine::idle(seq![]).resume(Refill::Chars(cursor_report(row, col))) == (
            Machine::idle(seq![]),
            Some(Ok::<Key, Failure>(Key::CursorPos(row, col))),
        ),
{
    let r = row as nat + 1;
    let c = col as nat + 1;
    let body = digits(r) + seq![';'] + digits(c) + seq!['R'];
    let text = cursor_report(row, col);
    let m0 = Machine::idle(text);
    assert(Seq::<char>::empty() + text =~= text);
    let m1 = m0.step().0;
    assert(m0.step() == m0.take(1).go(State::Escape));
    assert(m1.queue =~= seq!['['] + body);
    let m2 = m1.take(1);
    assert(m2.queue =~= body + Seq::<char>::empty());
    lemma_report_of_digits(r, c, Seq::<char>::empty());
    assert(m1.step() == m2.parse_cursor_report());
    assert(m2.take(body.len() as int).queue =~= Seq::<char>::empty());
    assert(m1.step().1 is Some);
    assert(m1.decode() == m1.step());
    assert(m0.decode() == m1.decode());
}

/// A read that brings nothing, before anything of a sequence was read, ends
/// in `NoData`: with an empty queue the keyboard reports that no key came,
/// whatever the reason was that the read returned.
pub proof fn law_no_data(m: Machine)
    requires
        m.state == State::Start,
        m.queue.len() == 0,
    ensures
        m.resume(Refill::Chars(seq![])) == (
            Machine::idle(seq![]),
            Some(Err::<Key, Failure>(Failure::NoData)),
        ),
{
    assert(m.queue + Seq::<char>::empty() =~= Seq::<char>::empty());
}

/// A read that brings ASCII text as bytes brings that text.
pub proof fn lemma_ascii_refill(text: Seq<char>)
    requires
        is_ascii_chars(text),
    ensures
        Refill::of_bytes(ascii(text)) == Refill::Chars(text),
{
    is_ascii_chars_encode_utf8(text);
    encode_utf8_valid_utf8(text);
    encode_utf8_decode_utf8(text);
    assert(ascii(text) =~= encode_utf8(text));
}

/// A byte from 0x20 to 0x7e, read on its own, is the key of its character.
pub proof fn law_printable_byte(b: u8)
    requires
        0x20 <= b < 0x7f,
    ensures
        Machine::idle(seq![]).resume(Refill::of_bytes(seq![b])) == (
            Machine::idle(seq![]),
            Some(Ok::<Key, Failure>(Key::Char(b as char))),
        ),
{
    let text = seq![b as char];
    assert(ascii(text) =~= seq![b]);
    lemma_ascii_refill(text);
    law_plain_character(b as char);
}

/// A control byte read on its own is Tab for 9, Enter for 13, Backspace
/// for 127; any other from 0 to 26 is Ctrl with its letter, `a` for 1 up to
/// `z` for 26, and with a space for 0.
pub proof fn law_control_byte(b: u8)
    requires
        b <= 0x1a || b == 0x7f,
    ensures
        Machine::idle(seq![]).resume(Refill::of_bytes(seq![b])) == (
            Machine::idle(seq![]),
            Some(
                Ok::<Key, Failure>(
                    if b == 9 {
                        Key::Tab
                    } else if b == 13 {
                        Key::Enter
                    } else if b == 127 {
                        Key::Backspace
                    } else if b == 0 {
                        Key::Ctrl(' ')
                    } else {
                        Key::Ctrl((0x60 + b) as char)
                    },
                ),
            ),
        ),
{
    let text = seq![b as char];
    assert(ascii(text) =~= seq![b]);
    lemma_ascii_refill(text);
    law_control_character(b as char);
}

/// The bytes that a terminal answers for a cursor in row `row` and column
/// `col`, read whole, are the key `CursorPos(row, col)`, and nothing of
/// them is left in the queue.
pub proof fn law_cursor_report_bytes(row: u16, col: u16)
    requires
        row < u16::MAX,
        col < u16::MAX,
    ensures
        Machine::idle(seq![]).resume(Refill::of_bytes(ascii(cursor_report(row, col)))) == (
            Machine::idle(seq![]),
            Some(Ok::<Key, Failure>(Key::CursorPos(row, col))),
        ),
{
    lemma_digits_are_digits(row as nat + 1);
    lemma_digits_are_digits(col as nat + 1);
    lemma_ascii_refill(cursor_report(row, col));
    law_cursor_report_round_trip(row, col);
}

/// A queue that begins with something else than a digit, or with one digit
/// and then neither a digit nor `;`, begins with no report.
pub proof fn lemma_no_report(q: Seq<char>)
    requires
        q.len() >= 1,
        !is_digit(q[0]) || (q.len() >= 2 && !is_digit(q[1]) && q[1] != ';'),
    ensures
        report(q) is None,
{
    let i = find(q, ';', 0);
    lemma_find(q, ';', 0);
    if i < q.len() {
        let row = q.subrange(0, i);
        if !is_digit(q[0]) {
            if i > 0 {
                assert(row[0] == q[0]);
            }
        } else {
            assert(i >= 2);
            assert(row[1] == q[1]);
        }
        assert(number(row) is None);
    }
}

/// The key that `ESC [` and `body` stand for, where `body` is that of an
/// arrow or of a page key.
pub open spec fn navigation(body: Seq<char>) -> Option<Key> {
    if body =~= seq!['A'] {
        Some(Key::Up)
    } else if body =~= seq!['B'] {
        Some(Key::Down)
    } else if body =~= seq!['C'] {
        Some(Key::Right)
    } else if body =~= seq!['D'] {
        Some(Key::Left)
    } else if body =~= seq!['5', '~'] {
        Some(Key::PageUp)
    } else if body =~= seq!['6', '~'] {
        Some(Key::PageDown)
    } else {
        None
    }
}

/// After a second `ESC`, `[` and the body of an arrow or of a page key are
/// that key with Alt, whatever the machine has read before and whatever
/// follows in the queue, and what follows stays in the queue.
pub proof fn law_second_escape_navigation(m: Machine, body: Seq<char>, rest: Seq<char>)
    requires
        navigation(body) is Some,
        m.queue == seq!['['] + body + rest,
    ensures
        alt_navigation(navigation(body)->0) is Some,
        m.parse_alt(ESC).1 is None,
        m.parse_alt(ESC).0.decode() == (
            Machine::idle(rest),
            Some(Ok::<Key, Failure>(alt_navigation(navigation(body)->0)->0)),
        ),
{
    let m2 = m.parse_alt(ESC).0;
    assert(m2.queue == m.queue);
    let after = m2.take(1);
    assert(after.queue =~= body + rest);
    lemma_no_report(after.queue);
    let m3 = m2.step().0;
    assert(m2.step() == (Machine { alt: true, ..after }).go(State::Csi));
    assert(m3.queue == after.queue);
    assert(m2.decode() == m3.decode());
    if body.len() == 1 {
        assert(m3.take(1).queue =~= rest);
        assert(m3.step().1 is Some);
        assert(m3.decode() == m3.step());
    } else {
        let m4 = m3.step().0;
        assert(m3.step() == m3.take(1).go(State::Extended(body[0])));
        assert(m4.queue =~= seq!['~'] + rest);
        assert(m4.take(1).queue =~= rest);
        assert(m4.step().1 is Some);
        assert(m3.decode() == m4.decode());
        assert(m4.decode() == m4.step());
    }
}

/// `ESC ESC [` and the body of an arrow or of a page key is that key with
/// Alt, whatever follows in the queue, and what follows stays in the queue.
pub proof fn law_double_escape_navigation(body: Seq<char>, rest: Seq<char>)
    requires
        navigation(body) is Some,
    ensures
        alt_navigation(navigation(body)->0) is Some,
        Machine::idle(seq![ESC, ESC, '['] + body + rest).decode() == (
            Machine::idle(rest),
            Some(Ok::<Key, Failure>(alt_navigation(navigation(body)->0)->0)),
        ),
{
    let text = seq![ESC, ESC, '['] + body + rest;
    let m0 = Machine::idle(text);
    let m1 = m0.step().0;
    assert(m0.step() == m0.take(1).go(State::Escape));
    assert(m1.queue =~= seq![ESC, '['] + body + rest);
    let read = m1.take(1);
    assert(read.queue =~= seq!['['] + body + rest);
    assert(m1.step() == read.parse_alt(ESC));
    law_second_escape_navigation(read, body, rest);
    assert(m0.decode() == m1.decode());
    assert(m1.decode() == m1.step().0.decode());
}

} // verus!
