//! The encoder: from display operations to the bytes of a terminal.
//!
//! An [`Output`] owns the terminfo entry of the terminal and a buffer. Every
//! operation appends bytes to the buffer and does nothing else. The encoder
//! never touches the device: [`Output::flush`], and the two operations that
//! end in a flush, empty the buffer and return what it held, and the caller
//! writes that to the device and flushes the device. An operation whose
//! capability the terminal lacks appends nothing.

use vstd::prelude::*;
use vstd::string::StringSliceAdditionalSpecFns;
use term::terminfo::TermInfo;
use crate::attr::{Attr, Color, Effect, BLINK, BOLD, DIM, REVERSE, UNDERLINE};
use crate::capability::{can_expand, cap_strings, capability, expand_cap, expandable, expansion};
use crate::capability::{has_name, law_plain_string_is_expandable, term_names};
use crate::decimal::{digit_bytes, push_decimal};

verus! {

/// An encoder as its contracts see it.
pub struct OutputView {
    /// The bytes that wait for the next flush.
    pub buffer: Seq<u8>,
    /// The string capabilities of the terminal.
    pub strings: Map<Seq<char>, Seq<u8>>,
    /// The names of the terminal.
    pub names: Seq<Seq<char>>,
}

/// Text with every `ESC` replaced by a question mark.
pub open spec fn neutralized(bytes: Seq<u8>) -> Seq<u8> {
    bytes.map_values(
        |b: u8|
            if b == 0x1b {
                0x3fu8
            } else {
                b
            },
    )
}

/// Text without `ESC` and without `BEL`.
pub open spec fn stripped(bytes: Seq<u8>) -> Seq<u8>
    decreases bytes.len(),
{
    if bytes.len() == 0 {
        seq![]
    } else if bytes.last() == 0x1b || bytes.last() == 0x07 {
        stripped(bytes.drop_last())
    } else {
        stripped(bytes.drop_last()).push(bytes.last())
    }
}

/// The sequence that sets a color given as red, green and blue; `lead` is
/// `ESC [ 38 ; 2 ;` for the foreground and `ESC [ 48 ; 2 ;` for the
/// background.
pub open spec fn rgb_sequence(lead: Seq<u8>, r: u8, g: u8, b: u8) -> Seq<u8> {
    lead + digit_bytes(r as nat) + ";".spec_bytes() + digit_bytes(g as nat) + ";".spec_bytes()
        + digit_bytes(b as nat) + "m".spec_bytes()
}

/// The sequence that sets the title of the window to `title`.
pub open spec fn title_sequence(title: Seq<u8>) -> Seq<u8> {
    "\x1b]2;".spec_bytes() + stripped(title) + "\x07".spec_bytes()
}

impl OutputView {
    /// The encoder with `bytes` appended to its buffer.
    pub open spec fn put(self, bytes: Seq<u8>) -> OutputView {
        OutputView { buffer: self.buffer + bytes, ..self }
    }

    /// The encoder after a flush: its buffer is empty.
    pub open spec fn flushed(self) -> OutputView {
        OutputView { buffer: seq![], ..self }
    }

    /// What the expansion `expanded` of a capability adds to the buffer.
    pub open spec fn expanded_bytes(expanded: Option<Seq<u8>>) -> Seq<u8> {
        match expanded {
            Some(bytes) => bytes,
            None => seq![],
        }
    }

    /// The bytes of the capability `name` with the parameters `params`:
    /// none where the terminal lacks the capability, where its string
    /// cannot be expanded, or where the expansion fails.
    pub open spec fn cap(self, name: Seq<char>, params: Seq<i32>) -> Seq<u8> {
        if self.strings.contains_key(name) && expandable(self.strings[name], params) {
            Self::expanded_bytes(expansion(self.strings[name], params))
        } else {
            seq![]
        }
    }

    /// Whether the terminal is one that has no title to set.
    pub open spec fn untitled(self) -> bool {
        self.names.contains("linux"@) || self.names.contains("eterm-color"@)
    }

    /// The bytes that set the foreground color.
    pub open spec fn fg(self, color: Color) -> Seq<u8> {
        match color {
            Color::Default => "\x1b[39m".spec_bytes(),
            Color::AnsiValue(x) => self.cap("setaf"@, seq![x as i32]),
            Color::Rgb(r, g, b) => rgb_sequence("\x1b[38;2;".spec_bytes(), r, g, b),
        }
    }

    /// The bytes that set the background color.
    pub open spec fn bg(self, color: Color) -> Seq<u8> {
        match color {
            Color::Default => "\x1b[49m".spec_bytes(),
            Color::AnsiValue(x) => self.cap("setab"@, seq![x as i32]),
            Color::Rgb(r, g, b) => rgb_sequence("\x1b[48;2;".spec_bytes(), r, g, b),
        }
    }

    /// The bytes of the capability `name` if `effects` holds the effect
    /// `bit`, and none if it does not.
    pub open spec fn effect_bit(self, effects: u8, bit: u8, name: Seq<char>) -> Seq<u8> {
        if effects & bit == bit {
            self.cap(name, seq![])
        } else {
            seq![]
        }
    }

    /// The bytes that switch on the effects of `effects`, each by its own
    /// capability: bold, dim, underline, blink, reverse.
    pub open spec fn effect(self, effects: u8) -> Seq<u8> {
        self.effect_bit(effects, BOLD, "bold"@) + self.effect_bit(effects, DIM, "dim"@)
            + self.effect_bit(effects, UNDERLINE, "smul"@) + self.effect_bit(
            effects,
            BLINK,
            "blink"@,
        ) + self.effect_bit(effects, REVERSE, "rev"@)
    }

    /// The bytes that move the cursor by `amount`: none for 0, the
    /// capability `one` for 1, and otherwise the capability `many` with the
    /// amount as its parameter.
    pub open spec fn movement(self, amount: i32, one: Seq<char>, many: Seq<char>) -> Seq<u8> {
        if amount == 0 {
            seq![]
        } else if amount == 1 {
            self.cap(one, seq![])
        } else {
            self.cap(many, seq![amount])
        }
    }
}

/// The encoder of the sequences of a terminal.
pub struct Output {
    buffer: Vec<u8>,
    terminfo: TermInfo,
}

impl View for Output {
    type V = OutputView;

    closed spec fn view(&self) -> OutputView {
        OutputView {
            buffer: self.buffer@,
            strings: cap_strings(self.terminfo),
            names: term_names(self.terminfo),
        }
    }
}

impl Output {
    /// An encoder for the terminal that `terminfo` describes, with an empty
    /// buffer.
    pub fn new(terminfo: TermInfo) -> (output: Self)
        ensures
            output@ == (OutputView {
                buffer: seq![],
                strings: cap_strings(terminfo),
                names: term_names(terminfo),
            }),
    {
        Output { buffer: Vec::with_capacity(1024), terminfo }
    }

    /// How many bytes wait for the next flush.
    pub fn buffered(&self) -> (n: usize)
        ensures
            n == self@.buffer.len(),
    {
        self.buffer.len()
    }

    /// Appends the expansion of a capability, if there is one.
    pub fn write_expanded(&mut self, expanded: Result<Vec<u8>, term::terminfo::parm::Error>)
        ensures
            final(self)@ == old(self)@.put(
                match expanded {
                    Ok(bytes) => bytes@,
                    Err(_) => seq![],
                },
            ),
    {
        match expanded {
            Ok(bytes) => {
                let mut bytes = bytes;
                self.buffer.append(&mut bytes);
            },
            Err(_) => {
                assert(self.buffer@ + Seq::<u8>::empty() =~= self.buffer@);
            },
        }
    }

    /// Appends the capability `cap`, which takes no parameters.
    pub fn write_cap(&mut self, cap: &str)
        ensures
            final(self)@ == old(self)@.put(old(self)@.cap(cap@, seq![])),
    {
        let none: [i32; 0] = [];
        assert(none@ =~= Seq::<i32>::empty());
        self.write_cap_with_params(cap, &none)
    }

    /// Appends the capability `cap`, expanded with `params`. Appends nothing
    /// where the terminal lacks the capability, where its string cannot be
    /// expanded, or where the expansion fails.
    pub fn write_cap_with_params(&mut self, cap: &str, params: &[i32])
        ensures
            final(self)@ == old(self)@.put(old(self)@.cap(cap@, params@)),
    {
        assert(self.buffer@ + Seq::<u8>::empty() =~= self.buffer@);
        match capability(&self.terminfo, cap) {
            Some(cmd) => {
                if can_expand(cmd.as_slice(), params) {
                    let expanded = expand_cap(cmd.as_slice(), params);
                    self.write_expanded(expanded);
                }
            },
            None => {},
        }
    }

    /// Appends text. An `ESC` in it is replaced by a question mark, so that
    /// text cannot give the terminal orders.
    pub fn write(&mut self, data: &str)
        ensures
            final(self)@ == old(self)@.put(neutralized(data.spec_bytes())),
    {
        let bytes = data.as_bytes();
        let mut i: usize = 0;
        assert(self.buffer@ =~= old(self).buffer@ + neutralized(bytes@).take(0));
        while i < bytes.len()
            invariant
                i <= bytes@.len(),
                bytes@ == data.spec_bytes(),
                self.buffer@ == old(self).buffer@ + neutralized(bytes@).take(i as int),
                self.terminfo == old(self).terminfo,
            decreases bytes@.len() - i,
        {
            let b = bytes[i];
            self.buffer.push(
                if b == 0x1b {
                    0x3f
                } else {
                    b
                },
            );
            i += 1;
            assert(self.buffer@ =~= old(self).buffer@ + neutralized(bytes@).take(i as int));
        }
        assert(neutralized(bytes@).take(bytes@.len() as int) =~= neutralized(bytes@));
    }

    /// Appends bytes as they are.
    pub fn write_raw(&mut self, data: &[u8])
        ensures
            final(self)@ == old(self)@.put(data@),
    {
        let mut i: usize = 0;
        assert(self.buffer@ =~= old(self).buffer@ + data@.take(0));
        while i < data.len()
            invariant
                i <= data@.len(),
                self.buffer@ == old(self).buffer@ + data@.take(i as int),
                self.terminfo == old(self).terminfo,
            decreases data@.len() - i,
        {
            self.buffer.push(data[i]);
            i += 1;
            assert(self.buffer@ =~= old(self).buffer@ + data@.take(i as int));
        }
        assert(data@.take(data@.len() as int) =~= data@);
    }

    /// Appends bytes, but for `ESC` and `BEL`.
    fn write_stripped(&mut self, bytes: &[u8])
        ensures
            final(self)@ == old(self)@.put(stripped(bytes@)),
    {
        let mut i: usize = 0;
        assert(bytes@.take(0) =~= Seq::<u8>::empty());
        assert(self.buffer@ =~= old(self).buffer@ + stripped(bytes@.take(0)));
        while i < bytes.len()
            invariant
                i <= bytes@.len(),
                self.buffer@ == old(self).buffer@ + stripped(bytes@.take(i as int)),
                self.terminfo == old(self).terminfo,
            decreases bytes@.len() - i,
        {
            let b = bytes[i];
            proof {
                let next = bytes@.take(i + 1);
                assert(next.drop_last() =~= bytes@.take(i as int));
                assert(next.last() == b);
            }
            if b != 0x1b && b != 0x07 {
                self.buffer.push(b);
            }
            i += 1;
            assert(self.buffer@ =~= old(self).buffer@ + stripped(bytes@.take(i as int)));
        }
        assert(bytes@.take(bytes@.len() as int) =~= bytes@);
    }

    /// Sets the title of the window. Does nothing on a terminal that has no
    /// title. `ESC` and `BEL` are left out of the title, since they would end
    /// the sequence early.
    pub fn set_title(&mut self, title: &str)
        ensures
            final(self)@ == if old(self)@.untitled() {
                old(self)@
            } else {
                old(self)@.put(title_sequence(title.spec_bytes()))
            },
    {
        let linux = "linux".to_owned();
        let eterm = "eterm-color".to_owned();
        if has_name(&self.terminfo, &linux) || has_name(&self.terminfo, &eterm) {
            return ;
        }
        self.write_raw("\x1b]2;".as_bytes());
        self.write_stripped(title.as_bytes());
        self.write_raw("\x07".as_bytes());
        assert(self@.buffer =~= old(self)@.buffer + title_sequence(title.spec_bytes()));
    }

    /// Sets the title of the window to nothing.
    pub fn clear_title(&mut self)
        ensures
            final(self)@ == if old(self)@.untitled() {
                old(self)@
            } else {
                old(self)@.put(title_sequence(seq![]))
            },
    {
        let empty = String::new();
        let title = empty.as_str();
        broadcast use vstd::utf8::is_ascii_chars_encode_utf8;
        assert(vstd::utf8::is_ascii_chars(title@));
        assert(title.spec_bytes() =~= Seq::<u8>::empty());
        self.set_title(title)
    }

    /// Empties the buffer and returns what it held: the bytes that the
    /// caller is to write to the device, in one piece, before it flushes the
    /// device. With an empty buffer these are no bytes.
    pub fn flush(&mut self) -> (bytes: Vec<u8>)
        ensures
            bytes@ == old(self)@.buffer,
            final(self)@ == old(self)@.flushed(),
    {
        let mut bytes: Vec<u8> = Vec::new();
        std::mem::swap(&mut self.buffer, &mut bytes);
        bytes
    }

    /// Erases the screen and moves the cursor home.
    pub fn erase_screen(&mut self)
        ensures
            final(self)@ == old(self)@.put(old(self)@.cap("clear"@, seq![])),
    {
        self.write_cap("clear")
    }

    /// Goes to the alternate screen.
    pub fn enter_alternate_screen(&mut self)
        ensures
            final(self)@ == old(self)@.put(old(self)@.cap("smcup"@, seq![])),
    {
        self.write_cap("smcup")
    }

    /// Leaves the alternate screen.
    pub fn quit_alternate_screen(&mut self)
        ensures
            final(self)@ == old(self)@.put(old(self)@.cap("rmcup"@, seq![])),
    {
        self.write_cap("rmcup")
    }

    /// Asks the terminal to report the mouse, in three protocols at once: a
    /// terminal takes the ones it knows and passes over the others.
    pub fn enable_mouse_support(&mut self)
        ensures
            final(self)@ == old(self)@.put(
                "\x1b[?1000h".spec_bytes() + "\x1b[?1015h".spec_bytes() + "\x1b[?1006h".spec_bytes(),
            ),
    {
        self.write_raw("\x1b[?1000h".as_bytes());
        self.write_raw("\x1b[?1015h".as_bytes());
        self.write_raw("\x1b[?1006h".as_bytes());
        assert(self@.buffer =~= old(self)@.buffer + ("\x1b[?1000h".spec_bytes()
            + "\x1b[?1015h".spec_bytes() + "\x1b[?1006h".spec_bytes()));
    }

    /// Asks the terminal to stop reporting the mouse.
    pub fn disable_mouse_support(&mut self)
        ensures
            final(self)@ == old(self)@.put(
                "\x1b[?1000l".spec_bytes() + "\x1b[?1015l".spec_bytes() + "\x1b[?1006l".spec_bytes(),
            ),
    {
        self.write_raw("\x1b[?1000l".as_bytes());
        self.write_raw("\x1b[?1015l".as_bytes());
        self.write_raw("\x1b[?1006l".as_bytes());
        assert(self@.buffer =~= old(self)@.buffer + ("\x1b[?1000l".spec_bytes()
            + "\x1b[?1015l".spec_bytes() + "\x1b[?1006l".spec_bytes()));
    }

    /// Erases from the cursor to the end of the line.
    pub fn erase_end_of_line(&mut self)
        ensures
            final(self)@ == old(self)@.put(old(self)@.cap("el"@, seq![])),
    {
        self.write_cap("el")
    }

    /// Erases from the line of the cursor to the bottom of the screen.
    pub fn erase_down(&mut self)
        ensures
            final(self)@ == old(self)@.put(old(self)@.cap("ed"@, seq![])),
    {
        self.write_cap("ed")
    }

    /// Switches all colors and effects off.
    pub fn reset_attributes(&mut self)
        ensures
            final(self)@ == old(self)@.put(old(self)@.cap("sgr0"@, seq![])),
    {
        self.write_cap("sgr0")
    }

    /// Appends a color given as red, green and blue, after `lead`.
    fn write_rgb(&mut self, lead: &str, r: u8, g: u8, b: u8)
        ensures
            final(self)@ == old(self)@.put(rgb_sequence(lead.spec_bytes(), r, g, b)),
    {
        self.write_raw(lead.as_bytes());
        push_decimal(&mut self.buffer, r);
        self.write_raw(";".as_bytes());
        push_decimal(&mut self.buffer, g);
        self.write_raw(";".as_bytes());
        push_decimal(&mut self.buffer, b);
        self.write_raw("m".as_bytes());
        assert(self@.buffer =~= old(self)@.buffer + rgb_sequence(lead.spec_bytes(), r, g, b));
    }

    /// Sets the foreground color.
    pub fn set_fg(&mut self, color: Color)
        ensures
            final(self)@ == old(self)@.put(old(self)@.fg(color)),
    {
        match color {
            Color::Default => self.write_raw("\x1b[39m".as_bytes()),
            Color::AnsiValue(x) => {
                let params: [i32; 1] = [x as i32];
                assert(params@ =~= seq![x as i32]);
                self.write_cap_with_params("setaf", &params)
            },
            Color::Rgb(r, g, b) => self.write_rgb("\x1b[38;2;", r, g, b),
        }
    }

    /// Sets the background color.
    pub fn set_bg(&mut self, color: Color)
        ensures
            final(self)@ == old(self)@.put(old(self)@.bg(color)),
    {
        match color {
            Color::Default => self.write_raw("\x1b[49m".as_bytes()),
            Color::AnsiValue(x) => {
                let params: [i32; 1] = [x as i32];
                assert(params@ =~= seq![x as i32]);
                self.write_cap_with_params("setab", &params)
            },
            Color::Rgb(r, g, b) => self.write_rgb("\x1b[48;2;", r, g, b),
        }
    }

    /// Appends the capability `cap` if `effect` holds all of `wanted`.
    fn write_effect(&mut self, effect: Effect, wanted: Effect, cap: &str)
        ensures
            final(self)@ == old(self)@.put(old(self)@.effect_bit(effect@, wanted@, cap@)),
    {
        if effect.contains(wanted) {
            self.write_cap(cap)
        } else {
            assert(self.buffer@ + Seq::<u8>::empty() =~= self.buffer@);
        }
    }

    /// Switches on the effects of `effect`, each by its own capability.
    /// Effects that are on already stay on.
    pub fn set_effect(&mut self, effect: Effect)
        ensures
            final(self)@ == old(self)@.put(old(self)@.effect(effect@)),
    {
        self.write_effect(effect, Effect::bold(), "bold");
        self.write_effect(effect, Effect::dim(), "dim");
        self.write_effect(effect, Effect::underline(), "smul");
        self.write_effect(effect, Effect::blink(), "blink");
        self.write_effect(effect, Effect::reverse(), "rev");
        assert(self@.buffer =~= old(self)@.buffer + old(self)@.effect(effect@));
    }

    /// Sets foreground, background and effects, in this order.
    pub fn set_attributes(&mut self, attr: Attr)
        ensures
            final(self)@ == old(self)@.put(
                old(self)@.fg(attr.fg) + old(self)@.bg(attr.bg) + old(self)@.effect(attr.effect@),
            ),
    {
        self.set_fg(attr.fg);
        self.set_bg(attr.bg);
        self.set_effect(attr.effect);
        assert(self@.buffer =~= old(self)@.buffer + (old(self)@.fg(attr.fg) + old(self)@.bg(
            attr.bg,
        ) + old(self)@.effect(attr.effect@)));
    }

    /// Switches automatic line wrapping off.
    pub fn disable_autowrap(&mut self)
        ensures
            final(self)@ == old(self)@.put(old(self)@.cap("rmam"@, seq![])),
    {
        self.write_cap("rmam")
    }

    /// Switches automatic line wrapping on.
    pub fn enable_autowrap(&mut self)
        ensures
            final(self)@ == old(self)@.put(old(self)@.cap("smam"@, seq![])),
    {
        self.write_cap("smam")
    }

    /// Moves the cursor to `row` and `column`, both counted from 0.
    pub fn cursor_goto(&mut self, row: i32, column: i32)
        ensures
            final(self)@ == old(self)@.put(old(self)@.cap("cup"@, seq![row, column])),
    {
        let params: [i32; 2] = [row, column];
        assert(params@ =~= seq![row, column]);
        self.write_cap_with_params("cup", &params)
    }

    /// Moves the cursor by `amount`, with the capability `one` for a single
    /// step and the capability `many` for any other number of steps.
    fn cursor_move(&mut self, amount: i32, one: &str, many: &str)
        ensures
            final(self)@ == old(self)@.put(old(self)@.movement(amount, one@, many@)),
    {
        if amount == 0 {
            assert(self.buffer@ + Seq::<u8>::empty() =~= self.buffer@);
        } else if amount == 1 {
            self.write_cap(one)
        } else {
            let params: [i32; 1] = [amount];
            assert(params@ =~= seq![amount]);
            self.write_cap_with_params(many, &params)
        }
    }

    /// Moves the cursor `amount` lines up.
    pub fn cursor_up(&mut self, amount: i32)
        ensures
            final(self)@ == old(self)@.put(old(self)@.movement(amount, "cuu1"@, "cuu"@)),
    {
        self.cursor_move(amount, "cuu1", "cuu")
    }

    /// Moves the cursor `amount` lines down.
    pub fn cursor_down(&mut self, amount: i32)
        ensures
            final(self)@ == old(self)@.put(old(self)@.movement(amount, "cud1"@, "cud"@)),
    {
        self.cursor_move(amount, "cud1", "cud")
    }

    /// Moves the cursor `amount` columns forward.
    pub fn cursor_forward(&mut self, amount: i32)
        ensures
            final(self)@ == old(self)@.put(old(self)@.movement(amount, "cuf1"@, "cuf"@)),
    {
        self.cursor_move(amount, "cuf1", "cuf")
    }

    /// Moves the cursor `amount` columns backward.
    pub fn cursor_backward(&mut self, amount: i32)
        ensures
            final(self)@ == old(self)@.put(old(self)@.movement(amount, "cub1"@, "cub"@)),
    {
        self.cursor_move(amount, "cub1", "cub")
    }

    /// Hides the cursor.
    pub fn hide_cursor(&mut self)
        ensures
            final(self)@ == old(self)@.put(old(self)@.cap("civis"@, seq![])),
    {
        self.write_cap("civis")
    }

    /// Shows the cursor.
    pub fn show_cursor(&mut self)
        ensures
            final(self)@ == old(self)@.put(old(self)@.cap("cnorm"@, seq![])),
    {
        self.write_cap("cnorm")
    }

    /// Asks the terminal where the cursor is, and flushes, so that the
    /// terminal answers now: returns the buffer with the request at its end,
    /// for the caller to write and flush at once.
    pub fn ask_for_cpr(&mut self) -> (bytes: Vec<u8>)
        ensures
            bytes@ == old(self)@.buffer + old(self)@.cap("u7"@, seq![]),
            final(self)@ == old(self)@.flushed(),
    {
        self.write_cap("u7");
        self.flush()
    }

    /// Rings the bell, and flushes, so that it rings now: returns the buffer
    /// with the bell at its end, for the caller to write and flush at once.
    pub fn bell(&mut self) -> (bytes: Vec<u8>)
        ensures
            bytes@ == old(self)@.buffer + old(self)@.cap("bel"@, seq![]),
            final(self)@ == old(self)@.flushed(),
    {
        self.write_cap("bel");
        self.flush()
    }

    /// Asks the terminal to mark pasted text.
    pub fn enable_bracketed_paste(&mut self)
        ensures
            final(self)@ == old(self)@.put("\x1b[?2004h".spec_bytes()),
    {
        self.write_raw("\x1b[?2004h".as_bytes())
    }

    /// Asks the terminal to stop marking pasted text.
    pub fn disable_bracketed_paste(&mut self)
        ensures
            final(self)@ == old(self)@.put("\x1b[?2004l".spec_bytes()),
    {
        self.write_raw("\x1b[?2004l".as_bytes())
    }
}

/// A flush changes nothing but the buffer, and a flush of an empty buffer
/// changes nothing at all: the bytes it returns for the device are those of
/// the buffer, which are none.
pub proof fn law_flush_of_empty_buffer(v: OutputView)
    requires
        v.buffer.len() == 0,
    ensures
        v.flushed() == v,
{
    assert(v.buffer =~= Seq::<u8>::empty());
}

/// A second flush right after a first finds an empty buffer, and leaves the
/// encoder as the first left it.
pub proof fn law_flush_twice(v: OutputView)
    ensures
        v.flushed().buffer.len() == 0,
        v.flushed().flushed() == v.flushed(),
{
}

/// Text that went through `neutralized` holds no `ESC`.
pub proof fn law_neutralized_holds_no_escape(bytes: Seq<u8>)
    ensures
        neutralized(bytes).len() == bytes.len(),
        forall|i: int| 0 <= i < bytes.len() ==> neutralized(bytes)[i] != 0x1b,
{
}

/// A title that went through `stripped` holds neither `ESC` nor `BEL`.
pub proof fn law_stripped_holds_no_control(bytes: Seq<u8>)
    ensures
        forall|i: int|
            0 <= i < stripped(bytes).len() ==> stripped(bytes)[i] != 0x1b && stripped(bytes)[i]
                != 0x07,
    decreases bytes.len(),
{
    if bytes.len() > 0 {
        let rest = stripped(bytes.drop_last());
        law_stripped_holds_no_control(bytes.drop_last());
        assert forall|i: int| 0 <= i < stripped(bytes).len() implies stripped(bytes)[i] != 0x1b
            && stripped(bytes)[i] != 0x07 by {
            if i < rest.len() {
                assert(stripped(bytes)[i] == rest[i]);
            }
        }
    }
}

/// A capability whose string holds no `%` is written as `term` expands it,
/// whatever the parameters are: nothing keeps such a string from being
/// expanded.
pub proof fn law_plain_capability(v: OutputView, name: Seq<char>, params: Seq<i32>)
    requires
        v.strings.contains_key(name),
        forall|i: int| 0 <= i < v.strings[name].len() ==> v.strings[name][i] != 0x25,
    ensures
        v.cap(name, params) == OutputView::expanded_bytes(expansion(v.strings[name], params)),
{
    law_plain_string_is_expandable(v.strings[name], params);
}

} // verus!
