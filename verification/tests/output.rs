use std::collections::HashMap;
use term::terminfo::TermInfo;
use tuikit::attr::{Attr, Color, Effect};
use tuikit::output::Output;

fn entry(name: &str, strings: &[(&'static str, &[u8])]) -> TermInfo {
    let mut map = HashMap::new();
    for &(cap, bytes) in strings {
        map.insert(cap, bytes.to_vec());
    }
    TermInfo {
        names: vec![name.to_string(), "a terminal made for tests".to_string()],
        bools: HashMap::new(),
        numbers: HashMap::new(),
        strings: map,
    }
}

fn xterm() -> TermInfo {
    entry(
        "xterm-256color",
        &[
            ("clear", b"\x1b[H\x1b[2J"),
            ("smcup", b"\x1b[?1049h"),
            ("rmcup", b"\x1b[?1049l"),
            ("el", b"\x1b[K"),
            ("ed", b"\x1b[J"),
            ("sgr0", b"\x1b(B\x1b[m"),
            ("setaf", b"\x1b[%?%p1%{8}%<%t3%p1%d%e%p1%{16}%<%t9%p1%{8}%-%d%e38;5;%p1%d%;m"),
            ("setab", b"\x1b[%?%p1%{8}%<%t4%p1%d%e%p1%{16}%<%t10%p1%{8}%-%d%e48;5;%p1%d%;m"),
            ("bold", b"\x1b[1m"),
            ("dim", b"\x1b[2m"),
            ("smul", b"\x1b[4m"),
            ("blink", b"\x1b[5m"),
            ("rev", b"\x1b[7m"),
            ("rmam", b"\x1b[?7l"),
            ("smam", b"\x1b[?7h"),
            ("cup", b"\x1b[%i%p1%d;%p2%dH"),
            ("cuu1", b"\x1b[A"),
            ("cuu", b"\x1b[%p1%dA"),
            ("cud1", b"\n"),
            ("cud", b"\x1b[%p1%dB"),
            ("cuf1", b"\x1b[C"),
            ("cuf", b"\x1b[%p1%dC"),
            ("cub1", b"\x08"),
            ("cub", b"\x1b[%p1%dD"),
            ("civis", b"\x1b[?25l"),
            ("cnorm", b"\x1b[?12l\x1b[?25h"),
            ("u7", b"\x1b[6n"),
            ("bel", b"\x07"),
        ],
    )
}

/// The bytes that `operate` leaves in the buffer of a fresh encoder.
fn bytes_of(info: TermInfo, operate: impl FnOnce(&mut Output)) -> Vec<u8> {
    let mut out = Output::new(info);
    operate(&mut out);
    let bytes = out.flush();
    assert_eq!(out.buffered(), 0);
    bytes
}

#[test]
fn new_encoder_is_empty() {
    let mut out = Output::new(xterm());
    assert_eq!(out.buffered(), 0);
    assert_eq!(out.flush(), b"");
}

#[test]
fn flush_of_empty_buffer_writes_nothing() {
    let mut out = Output::new(xterm());
    assert_eq!(out.flush(), b"");
    assert_eq!(out.flush(), b"");
    out.write("x");
    assert_eq!(out.flush(), b"x");
    assert_eq!(out.flush(), b"");
    assert_eq!(out.buffered(), 0);
}

#[test]
fn flush_hands_over_the_buffer_once() {
    let mut out = Output::new(xterm());
    out.write("one ");
    out.write_raw(b"two");
    assert_eq!(out.buffered(), 7);
    assert_eq!(out.flush(), b"one two");
    assert_eq!(out.buffered(), 0);
    out.write("three");
    assert_eq!(out.flush(), b"three");
}

#[test]
fn write_takes_the_escapes_out_of_text() {
    assert_eq!(bytes_of(xterm(), |o| o.write("plain")), b"plain");
    assert_eq!(bytes_of(xterm(), |o| o.write("a\x1b[31mb\x1b")), b"a?[31mb?");
    assert_eq!(bytes_of(xterm(), |o| o.write("0x1b é\x07")), "0x1b é\x07".as_bytes());
    assert_eq!(bytes_of(xterm(), |o| o.write("")), b"");
}

#[test]
fn write_raw_keeps_the_escapes() {
    assert_eq!(bytes_of(xterm(), |o| o.write_raw(b"a\x1b[31mb")), b"a\x1b[31mb");
    assert_eq!(bytes_of(xterm(), |o| o.write_raw(&[0xff, 0x00])), [0xff, 0x00]);
}

#[test]
fn title() {
    assert_eq!(bytes_of(xterm(), |o| o.set_title("hello")), b"\x1b]2;hello\x07");
    assert_eq!(bytes_of(xterm(), |o| o.set_title("a\x1bb\x07c é")), "\x1b]2;abc é\x07".as_bytes());
    assert_eq!(bytes_of(xterm(), |o| o.clear_title()), b"\x1b]2;\x07");
}

#[test]
fn no_title_on_terminals_without_one() {
    assert_eq!(bytes_of(entry("linux", &[]), |o| o.set_title("hello")), b"");
    assert_eq!(bytes_of(entry("eterm-color", &[]), |o| o.set_title("hello")), b"");
    assert_eq!(bytes_of(entry("linux", &[]), |o| o.clear_title()), b"");
    // only a whole name counts
    assert_eq!(bytes_of(entry("linux-16color", &[]), |o| o.set_title("x")), b"\x1b]2;x\x07");
    let mut second = entry("vt100", &[]);
    second.names.push("linux".to_string());
    assert_eq!(bytes_of(second, |o| o.set_title("x")), b"");
}

#[test]
fn plain_capabilities() {
    assert_eq!(bytes_of(xterm(), |o| o.erase_screen()), b"\x1b[H\x1b[2J");
    assert_eq!(bytes_of(xterm(), |o| o.enter_alternate_screen()), b"\x1b[?1049h");
    assert_eq!(bytes_of(xterm(), |o| o.quit_alternate_screen()), b"\x1b[?1049l");
    assert_eq!(bytes_of(xterm(), |o| o.erase_end_of_line()), b"\x1b[K");
    assert_eq!(bytes_of(xterm(), |o| o.erase_down()), b"\x1b[J");
    assert_eq!(bytes_of(xterm(), |o| o.reset_attributes()), b"\x1b(B\x1b[m");
    assert_eq!(bytes_of(xterm(), |o| o.disable_autowrap()), b"\x1b[?7l");
    assert_eq!(bytes_of(xterm(), |o| o.enable_autowrap()), b"\x1b[?7h");
    assert_eq!(bytes_of(xterm(), |o| o.hide_cursor()), b"\x1b[?25l");
    assert_eq!(bytes_of(xterm(), |o| o.show_cursor()), b"\x1b[?12l\x1b[?25h");
    assert_eq!(bytes_of(xterm(), |o| o.write_cap("bold")), b"\x1b[1m");
}

#[test]
fn missing_capability_does_nothing() {
    let bare = || entry("dumb", &[]);
    assert_eq!(bytes_of(bare(), |o| o.erase_screen()), b"");
    assert_eq!(bytes_of(bare(), |o| o.cursor_goto(1, 2)), b"");
    assert_eq!(bytes_of(bare(), |o| o.cursor_up(3)), b"");
    assert_eq!(bytes_of(bare(), |o| o.set_fg(Color::AnsiValue(1))), b"");
    assert_eq!(bytes_of(bare(), |o| o.set_effect(Effect::bold().union(Effect::blink()))), b"");
    assert_eq!(bytes_of(bare(), |o| o.write_cap("nothing")), b"");
    assert_eq!(bytes_of(xterm(), |o| o.write_cap("nothing")), b"");
}

#[test]
fn mouse_and_paste_switches() {
    assert_eq!(
        bytes_of(entry("dumb", &[]), |o| o.enable_mouse_support()),
        b"\x1b[?1000h\x1b[?1015h\x1b[?1006h"
    );
    assert_eq!(
        bytes_of(entry("dumb", &[]), |o| o.disable_mouse_support()),
        b"\x1b[?1000l\x1b[?1015l\x1b[?1006l"
    );
    assert_eq!(bytes_of(entry("dumb", &[]), |o| o.enable_bracketed_paste()), b"\x1b[?2004h");
    assert_eq!(bytes_of(entry("dumb", &[]), |o| o.disable_bracketed_paste()), b"\x1b[?2004l");
}

#[test]
fn foreground_colors() {
    assert_eq!(bytes_of(xterm(), |o| o.set_fg(Color::Default)), b"\x1b[39m");
    assert_eq!(bytes_of(xterm(), |o| o.set_fg(Color::AnsiValue(3))), b"\x1b[33m");
    assert_eq!(bytes_of(xterm(), |o| o.set_fg(Color::AnsiValue(11))), b"\x1b[93m");
    assert_eq!(bytes_of(xterm(), |o| o.set_fg(Color::AnsiValue(200))), b"\x1b[38;5;200m");
    assert_eq!(bytes_of(xterm(), |o| o.set_fg(Color::Rgb(1, 20, 255))), b"\x1b[38;2;1;20;255m");
    assert_eq!(bytes_of(xterm(), |o| o.set_fg(Color::Rgb(0, 9, 10))), b"\x1b[38;2;0;9;10m");
    assert_eq!(bytes_of(entry("dumb", &[]), |o| o.set_fg(Color::Rgb(99, 100, 199))), b"\x1b[38;2;99;100;199m");
}

#[test]
fn background_colors() {
    assert_eq!(bytes_of(xterm(), |o| o.set_bg(Color::Default)), b"\x1b[49m");
    assert_eq!(bytes_of(xterm(), |o| o.set_bg(Color::AnsiValue(3))), b"\x1b[43m");
    assert_eq!(bytes_of(xterm(), |o| o.set_bg(Color::AnsiValue(11))), b"\x1b[103m");
    assert_eq!(bytes_of(xterm(), |o| o.set_bg(Color::AnsiValue(255))), b"\x1b[48;5;255m");
    assert_eq!(bytes_of(xterm(), |o| o.set_bg(Color::Rgb(0, 0, 0))), b"\x1b[48;2;0;0;0m");
    assert_eq!(bytes_of(xterm(), |o| o.set_bg(Color::Rgb(255, 255, 255))), b"\x1b[48;2;255;255;255m");
}

#[test]
fn effects_each_by_its_capability() {
    assert_eq!(bytes_of(xterm(), |o| o.set_effect(Effect::empty())), b"");
    assert_eq!(bytes_of(xterm(), |o| o.set_effect(Effect::bold())), b"\x1b[1m");
    assert_eq!(bytes_of(xterm(), |o| o.set_effect(Effect::dim())), b"\x1b[2m");
    assert_eq!(bytes_of(xterm(), |o| o.set_effect(Effect::underline())), b"\x1b[4m");
    assert_eq!(bytes_of(xterm(), |o| o.set_effect(Effect::blink())), b"\x1b[5m");
    assert_eq!(bytes_of(xterm(), |o| o.set_effect(Effect::reverse())), b"\x1b[7m");
    let some = Effect::reverse().union(Effect::bold()).union(Effect::underline());
    assert_eq!(bytes_of(xterm(), |o| o.set_effect(some)), b"\x1b[1m\x1b[4m\x1b[7m");
    let all = some.union(Effect::blink()).union(Effect::dim());
    assert_eq!(bytes_of(xterm(), |o| o.set_effect(all)), b"\x1b[1m\x1b[2m\x1b[4m\x1b[5m\x1b[7m");
    // a terminal that cannot blink still gets the rest
    let mut info = xterm();
    info.strings.remove("blink");
    assert_eq!(bytes_of(info, |o| o.set_effect(all)), b"\x1b[1m\x1b[2m\x1b[4m\x1b[7m");
}

#[test]
fn attributes_in_order() {
    let attr = Attr::default().fg(Color::AnsiValue(2)).bg(Color::Rgb(1, 2, 3)).effect(Effect::bold());
    assert_eq!(bytes_of(xterm(), |o| o.set_attributes(attr)), b"\x1b[32m\x1b[48;2;1;2;3m\x1b[1m");
    assert_eq!(bytes_of(xterm(), |o| o.set_attributes(Attr::default())), b"\x1b[39m\x1b[49m");
}

#[test]
fn cursor_to_a_place() {
    assert_eq!(bytes_of(xterm(), |o| o.cursor_goto(0, 0)), b"\x1b[1;1H");
    assert_eq!(bytes_of(xterm(), |o| o.cursor_goto(5, 10)), b"\x1b[6;11H");
    assert_eq!(bytes_of(xterm(), |o| o.cursor_goto(23, 79)), b"\x1b[24;80H");
}

#[test]
fn cursor_by_steps() {
    assert_eq!(bytes_of(xterm(), |o| o.cursor_up(0)), b"");
    assert_eq!(bytes_of(xterm(), |o| o.cursor_up(1)), b"\x1b[A");
    assert_eq!(bytes_of(xterm(), |o| o.cursor_up(2)), b"\x1b[2A");
    assert_eq!(bytes_of(xterm(), |o| o.cursor_up(-1)), b"\x1b[-1A");
    assert_eq!(bytes_of(xterm(), |o| o.cursor_down(0)), b"");
    assert_eq!(bytes_of(xterm(), |o| o.cursor_down(1)), b"\n");
    assert_eq!(bytes_of(xterm(), |o| o.cursor_down(17)), b"\x1b[17B");
    assert_eq!(bytes_of(xterm(), |o| o.cursor_forward(0)), b"");
    assert_eq!(bytes_of(xterm(), |o| o.cursor_forward(1)), b"\x1b[C");
    assert_eq!(bytes_of(xterm(), |o| o.cursor_forward(300)), b"\x1b[300C");
    assert_eq!(bytes_of(xterm(), |o| o.cursor_backward(0)), b"");
    assert_eq!(bytes_of(xterm(), |o| o.cursor_backward(1)), b"\x08");
    assert_eq!(bytes_of(xterm(), |o| o.cursor_backward(4)), b"\x1b[4D");
}

#[test]
fn asking_for_the_cursor_flushes() {
    let mut out = Output::new(xterm());
    out.write("x");
    assert_eq!(out.ask_for_cpr(), b"x\x1b[6n");
    assert_eq!(out.buffered(), 0);
    assert_eq!(out.flush(), b"");
    let mut out = Output::new(entry("dumb", &[]));
    out.write("x");
    assert_eq!(out.ask_for_cpr(), b"x");
}

#[test]
fn bell_flushes() {
    let mut out = Output::new(xterm());
    out.write("x");
    assert_eq!(out.bell(), b"x\x07");
    assert_eq!(out.buffered(), 0);
    let mut out = Output::new(entry("dumb", &[]));
    assert_eq!(out.bell(), b"");
}

#[test]
fn operations_add_up_in_the_buffer() {
    let bytes = bytes_of(xterm(), |o| {
        o.erase_screen();
        o.cursor_goto(1, 1);
        o.set_fg(Color::AnsiValue(1));
        o.write("hi\x1b");
        o.reset_attributes();
    });
    assert_eq!(bytes, b"\x1b[H\x1b[2J\x1b[2;2H\x1b[31mhi?\x1b(B\x1b[m");
}
