use finance_ledger::text::{id_text, is_space_char, parse_id, split_words};

#[test]
fn white_space_is_what_unicode_says() {
    for code in 0..=0x10FFFFu32 {
        if let Some(c) = char::from_u32(code) {
            assert_eq!(is_space_char(c), c.is_whitespace(), "U+{:04X}", code);
        }
    }
}

#[test]
fn white_space_examples() {
    assert!(is_space_char(' '));
    assert!(is_space_char('\t'));
    assert!(is_space_char('\n'));
    assert!(is_space_char('\u{A0}'));
    assert!(is_space_char('\u{3000}'));
    assert!(!is_space_char('a'));
    assert!(!is_space_char('\u{200B}'));
    assert!(!is_space_char('\u{8}'));
}

#[test]
fn words_are_the_runs_between_white_space() {
    let lines = [
        "",
        " ",
        "a",
        " a",
        "a ",
        "add 15.99 food",
        "  add\t\t15.99 \u{2003} 餐饮\r\n",
        "one\u{A0}two\u{85}three",
        "no-break\u{200B}here",
    ];
    for line in lines {
        let expected: Vec<String> = line.split_whitespace().map(String::from).collect();
        assert_eq!(split_words(line), expected, "{:?}", line);
    }
    assert_eq!(split_words("  add\t15.99   餐饮 "), vec!["add", "15.99", "餐饮"]);
    assert_eq!(split_words(" \t "), Vec::<String>::new());
}

#[test]
fn ids_are_read_as_the_standard_library_reads_them() {
    let words = [
        "", "+", "-", "0", "7", "+7", "++7", "-7", "-0", "007", "12a", "a12", "1 2", " 1", "1.0",
        "4294967295", "4294967296", "+4294967295", "42949672950", "99999999999999999999", "１２",
        "0x10", "1e3",
    ];
    for word in words {
        assert_eq!(parse_id(word), word.parse::<u32>().ok(), "{:?}", word);
    }
    assert_eq!(parse_id("120"), Some(120));
    assert_eq!(parse_id("+0"), Some(0));
    assert_eq!(parse_id("4294967296"), None);
    assert_eq!(parse_id(""), None);
}

#[test]
fn ids_are_written_in_decimal() {
    for id in [0u32, 1, 9, 10, 11, 99, 100, 101, 12345, 1_000_000, u32::MAX - 1, u32::MAX] {
        assert_eq!(id_text(id), id.to_string());
    }
    assert_eq!(id_text(0), "0");
    assert_eq!(id_text(4070), "4070");
}

#[test]
fn written_ids_read_back() {
    for id in [0u32, 5, 10, 4294967295] {
        assert_eq!(parse_id(&id_text(id)), Some(id));
    }
}
