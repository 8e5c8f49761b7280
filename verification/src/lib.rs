//! Terminal input decoding and output encoding.
//!
//! The crate has two halves. [`input::KeyBoard`] turns the characters that a
//! terminal sends into [`key::Key`] events: plain and control characters,
//! Alt-prefixed keys, function and navigation keys, three mouse protocols and
//! cursor position reports. [`output::Output`] turns display operations into
//! the byte sequences that the terminal at hand understands, taken from its
//! terminfo entry or, where terminfo has no entry, written out literally.
//!
//! Neither half touches a file descriptor itself. The keyboard reads through
//! a [`input::ReadAndAsRawFd`] device that the caller supplies, and the
//! encoder returns the bytes that the caller is to write.

pub mod attr;
pub mod capability;
pub mod decimal;
pub mod input;
pub mod key;
pub mod output;
pub mod sequence;
