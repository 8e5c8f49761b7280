//! Colors and text effects.

use vstd::prelude::*;

verus! {

/// A foreground or background color.
///
/// More kinds of color may be added later, so a `match` outside this crate
/// needs a wildcard arm.
#[non_exhaustive]
#[derive(Clone, Copy, Debug, PartialEq, Eq, Hash, Structural)]
pub enum Color {
    /// The terminal's own default.
    Default,
    /// An entry of the 8 or 256 color palette.
    AnsiValue(u8),
    /// Red, green and blue, 8 bits each.
    Rgb(u8, u8, u8),
}

/// The bit of each text effect in the view of an [`Effect`].
pub const BOLD: u8 = 0x01;

pub const DIM: u8 = 0x02;

pub const UNDERLINE: u8 = 0x04;

pub const BLINK: u8 = 0x08;

pub const REVERSE: u8 = 0x10;

/// A set of text effects. Its view is the set as a bit pattern, one bit for
/// each effect; effects combine with `union`, in any order.
#[derive(Clone, Copy, Debug, PartialEq, Eq, Hash, Structural)]
pub struct Effect {
    bits: u8,
}

impl View for Effect {
    type V = u8;

    closed spec fn view(&self) -> u8 {
        self.bits
    }
}

impl Effect {
    /// Whether every effect of `other` is in `self`.
    pub open spec fn has(self, other: Effect) -> bool {
        self@ & other@ == other@
    }

    pub fn empty() -> (e: Effect)
        ensures
            e@ == 0,
    {
        Effect { bits: 0 }
    }

    pub fn bold() -> (e: Effect)
        ensures
            e@ == BOLD,
    {
        Effect { bits: BOLD }
    }

    pub fn dim() -> (e: Effect)
        ensures
            e@ == DIM,
    {
        Effect { bits: DIM }
    }

    pub fn underline() -> (e: Effect)
        ensures
            e@ == UNDERLINE,
    {
        Effect { bits: UNDERLINE }
    }

    pub fn blink() -> (e: Effect)
        ensures
            e@ == BLINK,
    {
        Effect { bits: BLINK }
    }

    pub fn reverse() -> (e: Effect)
        ensures
            e@ == REVERSE,
    {
        Effect { bits: REVERSE }
    }

    /// The set as a bit pattern.
    pub fn bits(&self) -> (b: u8)
        ensures
            b == self@,
    {
        self.bits
    }

    pub fn is_empty(&self) -> (b: bool)
        ensures
            b == (self@ == 0),
    {
        self.bits == 0
    }

    pub fn contains(&self, other: Effect) -> (b: bool)
        ensures
            b == self.has(other),
    {
        self.bits & other.bits == other.bits
    }

    pub fn union(self, other: Effect) -> (e: Effect)
        ensures
            e@ == self@ | other@,
    {
        Effect { bits: self.bits | other.bits }
    }
}

/// The colors and effects of a piece of text.
#[derive(Clone, Copy, Debug, PartialEq, Eq, Hash, Structural)]
pub struct Attr {
    pub fg: Color,
    pub bg: Color,
    pub effect: Effect,
}

impl Default for Attr {
    fn default() -> (a: Attr)
        ensures
            a.fg == Color::Default,
            a.bg == Color::Default,
            a.effect@ == 0,
    {
        Attr { fg: Color::Default, bg: Color::Default, effect: Effect::empty() }
    }
}

impl Attr {
    pub fn fg(self, fg: Color) -> (a: Attr)
        ensures
            a == (Attr { fg, ..self }),
    {
        Attr { fg, bg: self.bg, effect: self.effect }
    }

    pub fn bg(self, bg: Color) -> (a: Attr)
        ensures
            a == (Attr { bg, ..self }),
    {
        Attr { fg: self.fg, bg, effect: self.effect }
    }

    pub fn effect(self, effect: Effect) -> (a: Attr)
        ensures
            a == (Attr { effect, ..self }),
    {
        Attr { fg: self.fg, bg: self.bg, effect }
    }
}

} // verus!
