use fork_harness::text::{
    decimal_text, indented_text, is_white_space, lower_hex_text, same_text, short_hex_text,
    trimmed_text, upper_hex_list_text,
};
use move_core_types::account_address::AccountAddress;

#[test]
fn decimal_numbers() {
    assert_eq!(decimal_text(0), "0");
    assert_eq!(decimal_text(9), "9");
    assert_eq!(decimal_text(10), "10");
    assert_eq!(decimal_text(18446744073709551615), "18446744073709551615");
    for n in 0..2000u64 {
        assert_eq!(decimal_text(n), n.to_string());
    }
}

#[test]
fn texts_are_compared_by_characters() {
    assert!(same_text("", ""));
    assert!(same_text("h\u{e9}", "h\u{e9}"));
    assert!(!same_text("he", "h\u{e9}"));
    assert!(!same_text("a", "ab"));
    assert!(!same_text("ab", "ac"));
}

#[test]
fn hexadecimal_bytes() {
    assert_eq!(lower_hex_text(&[]), "");
    assert_eq!(lower_hex_text(&[0, 1, 0xab, 0xff]), "0001abff");
}

#[test]
fn short_addresses() {
    assert_eq!(short_hex_text(&[0u8; 32]), "0");
    let mut one = [0u8; 32];
    one[31] = 1;
    assert_eq!(short_hex_text(&one), "1");
    one[30] = 0x10;
    assert_eq!(short_hex_text(&one), "1001");
    one[0] = 0x0a;
    assert_eq!(
        short_hex_text(&one),
        "a00000000000000000000000000000000000000000000000000000000001001"
    );
}

#[test]
fn short_addresses_agree_with_move_core_types() {
    for seed in 0..400u32 {
        let mut bytes = [0u8; 16];
        let lead = (seed % 17) as usize;
        for i in lead..16 {
            bytes[i] = (seed.wrapping_mul(2654435761).wrapping_add(i as u32 * 40503) >> 7) as u8;
        }
        let expected = AccountAddress::new(bytes).short_str_lossless();
        assert_eq!(short_hex_text(&bytes), expected);
    }
}

#[test]
fn byte_lists_agree_with_debug_formatting() {
    assert_eq!(upper_hex_list_text(&[]), "[]");
    assert_eq!(upper_hex_list_text(&[1, 0xab, 0xff]), "[1, AB, FF]");
    let all: Vec<u8> = (0..=255).collect();
    assert_eq!(upper_hex_list_text(&all), format!("{:X?}", all));
}

#[test]
fn lines_are_indented() {
    assert_eq!(indented_text("a\nb\n\nc"), "a\n\tb\n\t\n\tc");
    assert_eq!(indented_text(""), "");
    let text = "=> struct {\n  x: 1\n}";
    assert_eq!(indented_text(text), text.replace('\n', "\n\t"));
}

#[test]
fn white_space_is_that_of_std() {
    for n in 0..=0x10ffffu32 {
        if let Some(c) = char::from_u32(n) {
            assert_eq!(is_white_space(c), c.is_whitespace(), "{:x}", n);
        }
    }
}

#[test]
fn trimming_is_that_of_std() {
    for text in ["", " ", "\t\n", "a", " a", "a ", " a b \u{3000}", "\u{a0}x\u{2003}y\u{85}"] {
        assert_eq!(trimmed_text(text), text.trim());
    }
}
