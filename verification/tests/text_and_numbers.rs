use indexer::decimal::{decimal_string, parse_i32, parse_u32, parse_u64};
use indexer::hex::{same_bytes, vec_to_hex};
use indexer::text::{same_text, split_text, trim_text};

#[test]
fn trim_removes_surrounding_whitespace() {
    assert_eq!(trim_text("  uniswap \t"), "uniswap");
    assert_eq!(trim_text("\u{3000}a b\u{2028}"), "a b");
    assert_eq!(trim_text("   "), "");
    assert_eq!(trim_text(""), "");
    assert_eq!(trim_text("x"), "x");
}

#[test]
fn trim_agrees_with_std() {
    for s in ["  a  ", "\n\r x \u{a0}", "\u{85}y", "no-space", " \u{200b} "] {
        assert_eq!(trim_text(s), s.trim());
    }
}

#[test]
fn split_keeps_empty_pieces() {
    assert_eq!(split_text("a,b,,c", ','), vec!["a", "b", "", "c"]);
    assert_eq!(split_text("", ','), vec![""]);
    assert_eq!(split_text(",", ','), vec!["", ""]);
    assert_eq!(split_text("name:addr:extra", ':'), vec!["name", "addr", "extra"]);
}

#[test]
fn split_agrees_with_std() {
    for s in ["x,y", ",,", "one", "a,b,c,", "é,ü"] {
        let ours = split_text(s, ',');
        let std: Vec<String> = s.split(',').map(|p| p.to_string()).collect();
        assert_eq!(ours, std);
    }
}

#[test]
fn same_text_compares_characters() {
    assert!(same_text("PoolCreated", "PoolCreated"));
    assert!(!same_text("PoolCreated", "poolcreated"));
    assert!(!same_text("abc", "ab"));
}

#[test]
fn parse_u64_follows_std() {
    assert_eq!(parse_u64("0"), Some(0));
    assert_eq!(parse_u64("+42"), Some(42));
    assert_eq!(parse_u64("18446744073709551615"), Some(u64::MAX));
    assert_eq!(parse_u64("18446744073709551616"), None);
    assert_eq!(parse_u64(""), None);
    assert_eq!(parse_u64("+"), None);
    assert_eq!(parse_u64("-1"), None);
    assert_eq!(parse_u64(" 1"), None);
    assert_eq!(parse_u64("12a"), None);
    for s in ["007", "+0", "99999999999999999999", "1_000", "٣"] {
        assert_eq!(parse_u64(s), s.parse::<u64>().ok());
    }
}

#[test]
fn parse_u32_and_i32_follow_std() {
    assert_eq!(parse_u32("5"), Some(5));
    assert_eq!(parse_u32("4294967295"), Some(u32::MAX));
    assert_eq!(parse_u32("4294967296"), None);
    assert_eq!(parse_i32("25"), Some(25));
    assert_eq!(parse_i32("-2147483648"), Some(i32::MIN));
    assert_eq!(parse_i32("2147483647"), Some(i32::MAX));
    assert_eq!(parse_i32("2147483648"), None);
    assert_eq!(parse_i32("-2147483649"), None);
    assert_eq!(parse_i32("-"), None);
    assert_eq!(parse_i32("-+1"), None);
    for s in ["-0", "+7", "--1", "", "12 "] {
        assert_eq!(parse_i32(s), s.parse::<i32>().ok());
    }
}

#[test]
fn decimal_string_matches_display() {
    for n in [0u64, 7, 10, 25, 1234567890, u64::MAX] {
        assert_eq!(decimal_string(n), n.to_string());
        assert_eq!(parse_u64(&decimal_string(n)), Some(n));
    }
}

#[test]
fn hex_is_lowercase_two_digits_per_byte() {
    assert_eq!(vec_to_hex(&[0x00, 0x0f, 0xab, 0xff]), "000fabff");
    assert_eq!(vec_to_hex(&[]), "");
    assert_eq!(vec_to_hex(&[0xde, 0xad, 0xbe, 0xef]).len(), 8);
}

#[test]
fn same_bytes_compares_contents() {
    assert!(same_bytes(&[1, 2, 3], &[1, 2, 3]));
    assert!(!same_bytes(&[1, 2, 3], &[1, 2]));
    assert!(!same_bytes(&[1, 2, 3], &[1, 2, 4]));
}

#[test]
fn different_bytes_give_different_hex() {
    assert_ne!(vec_to_hex(&[0x01, 0x23]), vec_to_hex(&[0x12, 0x30]));
    assert_ne!(vec_to_hex(&[0x0a]), vec_to_hex(&[0xa0]));
}
