use cyber_dungeon::game::text::{
    chars_of, decimal_string, is_space_char, list_string, natural_string, parse_number,
    same_text, split_words, trim,
};

fn words_by_std(line: &str) -> Vec<String> {
    line.split_whitespace().map(|w| w.to_string()).collect()
}

#[test]
fn white_space_is_what_std_calls_white_space() {
    for code in 0u32..=0x10FFFF {
        if let Some(c) = char::from_u32(code) {
            assert_eq!(is_space_char(c), c.is_whitespace(), "U+{:04X}", code);
        }
    }
}

#[test]
fn chars_of_keeps_every_character() {
    assert_eq!(chars_of("héllo ✓"), vec!['h', 'é', 'l', 'l', 'o', ' ', '✓']);
    assert_eq!(chars_of(""), Vec::<char>::new());
}

#[test]
fn split_words_cuts_at_white_space() {
    assert_eq!(split_words("go north"), vec!["go".to_string(), "north".to_string()]);
    assert_eq!(split_words("  take   Key \n"), vec!["take".to_string(), "Key".to_string()]);
    assert_eq!(split_words("look"), vec!["look".to_string()]);
    assert_eq!(split_words("a\tb\u{a0}c\u{3000}d"), words_by_std("a\tb\u{a0}c\u{3000}d"));
}

#[test]
fn split_words_of_blank_line_is_empty() {
    assert_eq!(split_words(""), Vec::<String>::new());
    assert_eq!(split_words("   \t\r\n"), Vec::<String>::new());
}

#[test]
fn split_words_agrees_with_std() {
    let lines = [
        "",
        " ",
        "x",
        " x",
        "x ",
        "go  north  now",
        "\u{2003}wide\u{2003}space\u{2003}",
        "tab\tnew\nline\rreturn",
        "ünïcödé wörds ärë kept",
        "a\u{200b}b c",
    ];
    for line in lines {
        assert_eq!(split_words(line), words_by_std(line), "{:?}", line);
    }
}

#[test]
fn trim_cuts_both_ends_only() {
    assert_eq!(trim("  attack \n"), "attack");
    assert_eq!(trim("a b"), "a b");
    assert_eq!(trim("\t a  b \u{a0}"), "a  b");
    assert_eq!(trim(""), "");
    assert_eq!(trim(" \n\t "), "");
    let lines = ["x", " x", "x ", "\u{3000}é\u{3000}", "  two words  "];
    for line in lines {
        assert_eq!(trim(line), line.trim(), "{:?}", line);
    }
}

#[test]
fn decimal_string_writes_numbers_as_std_does() {
    assert_eq!(decimal_string(0), "0");
    assert_eq!(decimal_string(7), "7");
    assert_eq!(decimal_string(10), "10");
    assert_eq!(decimal_string(95), "95");
    assert_eq!(decimal_string(-10), "-10");
    assert_eq!(decimal_string(2147483647), "2147483647");
    assert_eq!(decimal_string(-2147483648), "-2147483648");
    assert_eq!(decimal_string(i64::MAX), i64::MAX.to_string());
    assert_eq!(decimal_string(i64::MIN), i64::MIN.to_string());
    for n in -1200i64..1200 {
        assert_eq!(decimal_string(n), n.to_string());
    }
}

#[test]
fn natural_string_writes_numbers_as_std_does() {
    assert_eq!(natural_string(0), "0");
    assert_eq!(natural_string(1), "1");
    assert_eq!(natural_string(1090), "1090");
    assert_eq!(natural_string(u64::MAX), u64::MAX.to_string());
}

#[test]
fn parse_number_reads_digits_with_an_optional_plus() {
    assert_eq!(parse_number("1"), Some(1));
    assert_eq!(parse_number("42"), Some(42));
    assert_eq!(parse_number("+7"), Some(7));
    assert_eq!(parse_number("007"), Some(7));
    assert_eq!(parse_number("0"), Some(0));
}

#[test]
fn parse_number_turns_everything_else_down() {
    assert_eq!(parse_number(""), None);
    assert_eq!(parse_number("+"), None);
    assert_eq!(parse_number("-1"), None);
    assert_eq!(parse_number("1 "), None);
    assert_eq!(parse_number(" 1"), None);
    assert_eq!(parse_number("1a"), None);
    assert_eq!(parse_number("++1"), None);
    assert_eq!(parse_number("1+"), None);
    assert_eq!(parse_number("٣"), None);
    assert_eq!(parse_number("cancel"), None);
}

#[test]
fn parse_number_agrees_with_std_at_the_limit() {
    let max = usize::MAX.to_string();
    assert_eq!(parse_number(&max), Some(usize::MAX));
    let over = format!("{}0", max);
    assert_eq!(parse_number(&over), None);
    let mut just_over = max.clone();
    let last = just_over.pop().unwrap();
    just_over.push(char::from_u32(last as u32 + 1).unwrap());
    assert_eq!(parse_number(&just_over), just_over.parse::<usize>().ok());
    assert_eq!(parse_number(&just_over), None);
    let texts = ["18446744073709551615", "18446744073709551616", "4294967295", "4294967296", "99999999999999999999999"];
    for text in texts {
        assert_eq!(parse_number(text), text.parse::<usize>().ok(), "{}", text);
    }
}

#[test]
fn list_string_quotes_and_separates() {
    assert_eq!(list_string(&vec![]), "[]");
    assert_eq!(list_string(&vec!["Key".to_string()]), "[\"Key\"]");
    assert_eq!(
        list_string(&vec!["Broken_Sword".to_string(), "Healing_Grass".to_string()]),
        "[\"Broken_Sword\", \"Healing_Grass\"]"
    );
}

#[test]
fn list_string_escapes_as_debug_does() {
    let names = vec!["a\"b".to_string(), "back\\slash".to_string(), "new\nline".to_string(), "é".to_string(), "".to_string()];
    assert_eq!(list_string(&names), format!("{:?}", names));
    assert_eq!(list_string(&vec!["a\"b".to_string()]), "[\"a\\\"b\"]");
}

#[test]
fn same_text_compares_character_by_character() {
    assert!(same_text("", ""));
    assert!(same_text("go", "go"));
    assert!(same_text("héllo ✓", "héllo ✓"));
    assert!(!same_text("go", "Go"));
    assert!(!same_text("go", "go "));
    assert!(!same_text("go", "g"));
    assert!(!same_text("", "x"));
    assert!(!same_text("take", "talk"));
    let texts = ["", "a", "ab", "ba", "é", "e\u{301}", "north", "North", "north "];
    for left in texts {
        for right in texts {
            assert_eq!(same_text(left, right), left == right, "{:?} {:?}", left, right);
        }
    }
}
