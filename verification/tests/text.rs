use ark_onramp::order::str_precedes;
use ark_onramp::pj_uri::{onramp_pj_uri, strip_pjos};
use ark_onramp::table::Table;
use ark_onramp::text::{
    cat2, cat5, chars_of, has_text, join, pad_zeros, parse_number, split, starts_with, str_eq,
    string_of, to_ascii_lower, trim, trim_end_slashes, u64_text,
};

#[test]
fn trimming_agrees_with_std() {
    let cases = vec![
        "", " ", "a", " a ", "\t\r\n a b \u{a0}", "\u{3000}x\u{2003}", "\u{200b}y", "é ", "\u{85}z",
        "\u{1680}\u{2028}\u{2029}\u{202f}\u{205f}w\u{180e}",
    ];
    for s in cases {
        assert_eq!(trim(s), s.trim(), "{:?}", s);
    }
    for s in ["", "/", "http://a", "http://a/", "http://a///", "///"] {
        assert_eq!(trim_end_slashes(s), s.trim_end_matches('/'));
    }
}

#[test]
fn splitting_and_joining_agree_with_std() {
    for s in ["", ",", "a", "a,b", ",a,,b,", "ä,ö"] {
        let parts = split(s, ',');
        let expected: Vec<String> = s.split(',').map(|p| p.to_string()).collect();
        assert_eq!(parts, expected);
        assert_eq!(join(&parts, ','), s);
    }
}

#[test]
fn numbers_are_written_and_read() {
    assert_eq!(u64_text(0), "0");
    assert_eq!(u64_text(18446744073709551615), "18446744073709551615");
    assert_eq!(pad_zeros("7", 12), "000000000007");
    assert_eq!(pad_zeros("1234567890123", 12), "1234567890123");
    for s in ["0", "+7", "007", "18446744073709551615", "18446744073709551616", "", "+", "-1", "1 ", "1a", "٣"] {
        assert_eq!(parse_number(s, u64::MAX), s.parse::<u64>().ok(), "{}", s);
        assert_eq!(parse_number(s, 65535), s.parse::<u16>().ok().map(|n| n as u64), "{}", s);
    }
    assert_eq!(parse_number("65535", 65535), Some(65535));
    assert_eq!(parse_number("65536", 65535), None);
}

#[test]
fn texts_are_compared_and_put_together() {
    assert!(str_eq("abc", "abc"));
    assert!(!str_eq("abc", "abd"));
    assert!(starts_with("quote:1", "quote:"));
    assert!(!starts_with("quote", "quote:"));
    assert!(has_text(&vec!["a".to_string(), "b".to_string()], "b"));
    assert!(!has_text(&vec!["a".to_string()], "b"));
    assert_eq!(cat2("a", "b"), "ab");
    assert_eq!(cat5("a", "b", "c", "d", "e"), "abcde");
    assert_eq!(to_ascii_lower("PJOS=0É"), "PJOS=0É".to_ascii_lowercase());
    assert_eq!(string_of(&chars_of("héllo"), 1, 3), "él");
}

#[test]
fn order_of_texts_is_the_order_of_their_bytes() {
    let mut all = vec!["", "a", "b", "aa", "a:", "a0", "ä", "z", "\u{10000}", "\u{ffff}", "A"];
    all.sort();
    for i in 0..all.len() {
        for j in 0..all.len() {
            assert_eq!(str_precedes(all[i], all[j]), i < j, "{} {}", all[i], all[j]);
        }
    }
}

#[test]
fn table_keeps_one_row_for_each_key_in_order() {
    let mut table: Table<String> = Table::new();
    assert_eq!(table.len(), 0);
    table.insert("b".to_string(), "1".to_string());
    table.insert("a".to_string(), "2".to_string());
    table.insert("c".to_string(), "3".to_string());
    table.insert("a".to_string(), "4".to_string());
    assert_eq!(table.len(), 3);
    let keys: Vec<String> = (0..table.len()).map(|i| table.key_at(i).clone()).collect();
    assert_eq!(keys, vec!["a", "b", "c"]);
    assert_eq!(table.value_at(0), "4");
    assert_eq!(table.get("a"), Some(&"4".to_string()));
    assert!(table.contains("c"));
    table.remove("c");
    table.remove("not there");
    assert!(!table.contains("c"));
    assert_eq!(table.get("c"), None);
    assert_eq!(table.len(), 2);
}

#[test]
fn output_substitution_is_left_on() {
    assert_eq!(
        strip_pjos("bitcoin:bc1q?amount=0.1&pjos=0&pj=HTTPS://PAYJO.IN/ABC%23EX1"),
        "bitcoin:bc1q?amount=0.1&pj=HTTPS://PAYJO.IN/ABC%23EX1"
    );
    assert_eq!(strip_pjos("bitcoin:x?PJOS=1&pj=y"), "bitcoin:x?pj=y");
    assert_eq!(strip_pjos("bitcoin:x?pjos=0"), "bitcoin:x?");
    assert_eq!(strip_pjos("bitcoin:x?pjos=2"), "bitcoin:x?pjos=2");
    assert_eq!(strip_pjos("bitcoin:x?pjos=00&a=pjos=0"), "bitcoin:x?pjos=00&a=pjos=0");
    assert_eq!(strip_pjos("bitcoin:x"), "bitcoin:x");
    assert_eq!(strip_pjos(""), "");
    // The query is all that stands behind the first question mark.
    assert_eq!(strip_pjos("a?b?pjos=0&c"), "a?b?pjos=0&c");
    assert_eq!(
        strip_pjos("bitcoin:a?pj=https://h/x?k=1&pjos=0"),
        "bitcoin:a?pj=https://h/x?k=1"
    );
    assert_eq!(onramp_pj_uri("bitcoin:x?pjos=0&pj=y"), "bitcoin:x?pj=y");
}
