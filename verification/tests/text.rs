use rmux_jump::text::{
    blank, chars_of, comes_before, control, decimal_text, joined, lines_of, number_of, padded_left,
    space, string_between, trimmed, trimmed_end, two_fields,
};

const SAMPLES: [&str; 14] = [
    "",
    " ",
    "a",
    " a b ",
    "\tline\r\n",
    "one\ntwo\r\nthree",
    "\n\n",
    "a\r",
    "a\r\r\nb\r",
    "\u{3000}wide\u{2003}\u{85}",
    "tail\n",
    "é·→\u{241F}x\u{241F}y",
    "\u{200b}zero\u{feff}",
    "\r\n\r\n",
];

#[test]
fn character_classes_are_those_of_unicode() {
    for code in 0..=0x10ffffu32 {
        if let Some(c) = char::from_u32(code) {
            assert_eq!(space(c), c.is_whitespace(), "{code:x}");
            assert_eq!(control(c), c.is_control(), "{code:x}");
        }
    }
}

#[test]
fn trimming_drops_white_space_at_the_ends() {
    for sample in SAMPLES {
        assert_eq!(trimmed(sample), sample.trim());
        assert_eq!(trimmed_end(sample), sample.trim_end());
        assert_eq!(blank(sample), sample.trim().is_empty());
    }
}

#[test]
fn lines_end_in_line_feeds() {
    for sample in SAMPLES {
        let expected: Vec<String> = sample.lines().map(str::to_string).collect();
        assert_eq!(lines_of(sample), expected, "{sample:?}");
    }
}

#[test]
fn numbers_are_read_as_the_standard_library_reads_them() {
    for sample in [
        "", "+", "-1", "0", "7", "+7", "007", "4294967295", "4294967296", "99999999999999999999",
        "1a", " 1", "++1", "1+", "٣",
    ] {
        assert_eq!(number_of(sample), sample.parse::<u32>().ok(), "{sample:?}");
    }
}

#[test]
fn numbers_are_written_in_decimal() {
    for n in [0u128, 9, 10, 99, 100, 4294967295, 18446744073709551615, u128::MAX] {
        assert_eq!(decimal_text(n), n.to_string());
    }
}

#[test]
fn fields_stand_between_separators() {
    for sample in SAMPLES {
        let mut parts = sample.split('\u{241F}');
        let first = parts.next().unwrap().to_string();
        let second = parts.next().map(str::to_string);
        assert_eq!(two_fields(sample, '\u{241F}'), (first, second));
    }
}

#[test]
fn texts_are_joined_and_padded() {
    let parts: Vec<String> = ["a", "b", "c"].iter().map(|s| s.to_string()).collect();
    assert_eq!(joined(&parts, ","), "a,b,c");
    assert_eq!(joined(&Vec::new(), ","), "");
    for sample in ["", "1", "é", "12", "123", "1234"] {
        assert_eq!(padded_left(sample, 3), format!("{sample:>3}"));
    }
}

#[test]
fn texts_are_ordered_as_strings_are() {
    for a in SAMPLES {
        for b in SAMPLES {
            assert_eq!(comes_before(a, b), a < b, "{a:?} {b:?}");
        }
    }
    assert!(comes_before("\u{ffff}", "\u{10000}"));
}

#[test]
fn characters_are_taken_apart_and_put_together() {
    let v = chars_of("aé→");
    assert_eq!(v, vec!['a', 'é', '→']);
    assert_eq!(string_between(&v, 1, 3), "é→");
    assert_eq!(string_between(&v, 1, 1), "");
}
