use std::collections::VecDeque;
use tuikit::decimal::{find_char, push_decimal, scan_number, scan_triple, NUMBER_MAX, TOO_BIG};

fn queue(text: &str) -> VecDeque<char> {
    text.chars().collect()
}

#[test]
fn numbers_are_read() {
    let q = queue("0;7;42;65535;007");
    assert_eq!(scan_number(&q, 0, 1), Some(0));
    assert_eq!(scan_number(&q, 2, 3), Some(7));
    assert_eq!(scan_number(&q, 4, 6), Some(42));
    assert_eq!(scan_number(&q, 7, 12), Some(NUMBER_MAX));
    assert_eq!(scan_number(&q, 13, 16), Some(7));
    assert_eq!(scan_number(&q, 8, 10), Some(55));
}

#[test]
fn what_is_no_number() {
    let q = queue("12a;+5;-5; 5");
    assert_eq!(scan_number(&q, 0, 0), None);
    assert_eq!(scan_number(&q, 3, 3), None);
    assert_eq!(scan_number(&q, 0, 3), None);
    assert_eq!(scan_number(&q, 0, 4), None);
    assert_eq!(scan_number(&q, 4, 6), None);
    assert_eq!(scan_number(&q, 7, 9), None);
    assert_eq!(scan_number(&q, 10, 12), None);
    assert_eq!(scan_number(&queue("٣"), 0, 1), None);
}

#[test]
fn large_numbers_are_cut_off() {
    assert_eq!(TOO_BIG, 65536);
    for text in ["65536", "65537", "99999", "4294967296", "18446744073709551616", "000000000000065536"] {
        let q = queue(text);
        assert_eq!(scan_number(&q, 0, q.len()), Some(TOO_BIG));
    }
    let q = queue("0000000000000000000000000065535");
    assert_eq!(scan_number(&q, 0, q.len()), Some(65535));
    // a large number that ends in something else is no number
    let q = queue("99999999999x");
    assert_eq!(scan_number(&q, 0, q.len()), None);
}

#[test]
fn characters_are_found() {
    let q = queue("ab;cd;R");
    assert_eq!(find_char(&q, ';', 0, 7), 2);
    assert_eq!(find_char(&q, ';', 2, 7), 2);
    assert_eq!(find_char(&q, ';', 3, 7), 5);
    assert_eq!(find_char(&q, ';', 6, 7), 7);
    assert_eq!(find_char(&q, ';', 3, 5), 5);
    assert_eq!(find_char(&q, 'R', 0, 7), 6);
    assert_eq!(find_char(&q, 'R', 0, 6), 6);
    assert_eq!(find_char(&q, 'x', 0, 7), 7);
    assert_eq!(find_char(&q, 'a', 0, 0), 0);
    assert_eq!(find_char(&queue(""), 'a', 0, 0), 0);
}

#[test]
fn lists_of_three() {
    let q = queue("0;5;3M");
    assert_eq!(scan_triple(&q, 5), Some((0, 5, 3)));
    assert_eq!(scan_triple(&q, 6), None);
    assert_eq!(scan_triple(&q, 4), None);
    assert_eq!(scan_triple(&q, 3), None);
    let q = queue("32;100000;65535");
    assert_eq!(scan_triple(&q, q.len()), Some((32, TOO_BIG, 65535)));
    for text in ["", "1", "1;2", "1;2;", ";2;3", "1;;3", "1;2;3;4", "a;2;3", "1;2;3 ", ";;"] {
        let q = queue(text);
        assert_eq!(scan_triple(&q, q.len()), None);
    }
}

#[test]
fn bytes_are_written_in_decimal() {
    for n in 0..=255u8 {
        let mut out = b"x".to_vec();
        push_decimal(&mut out, n);
        assert_eq!(out, format!("x{}", n).into_bytes());
    }
    let mut out = Vec::new();
    push_decimal(&mut out, 0);
    push_decimal(&mut out, 9);
    push_decimal(&mut out, 10);
    push_decimal(&mut out, 99);
    push_decimal(&mut out, 100);
    push_decimal(&mut out, 255);
    assert_eq!(out, b"091099100255");
}
