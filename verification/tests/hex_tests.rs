use emu8::{chars_from_bytes, get_len, hex_to_dec, is_hex_digit_char, to_hex_text};

fn chars(s: &str) -> Vec<char> {
    s.chars().collect()
}

#[test]
fn hex_to_dec_reads_low_digit_first() {
    assert_eq!(hex_to_dec('5', 'a'), 0xa5);
    assert_eq!(hex_to_dec('F', 'f'), 0xff);
    assert_eq!(hex_to_dec('0', '0'), 0);
    assert_eq!(hex_to_dec('9', '1'), 0x19);
    assert_eq!(hex_to_dec('c', 'B'), 0xbc);
}

#[test]
fn hex_digit_acceptance() {
    for c in "0123456789abcdefABCDEF".chars() {
        assert!(is_hex_digit_char(c));
    }
    for c in "gG/ :xz-".chars() {
        assert!(!is_hex_digit_char(c));
    }
    // The decoder looks at the low byte of a code point for decimal digits.
    assert!(is_hex_digit_char('\u{130}'));
    assert_eq!(hex_to_dec('\u{131}', '0'), 1);
}

#[test]
fn get_len_weights_header_bytes() {
    // "000102": bytes 0x00, 0x01, 0x02 weighted 256, 16, 1.
    assert_eq!(get_len(chars("000102")), 16 + 2);
    assert_eq!(get_len(chars("010000ff")), 256);
    assert_eq!(get_len(chars("ffffff")), 255 * 256 + 255 * 16 + 255);
    assert_eq!(get_len(chars("00000a")), 10);
}

#[test]
fn bytes_become_chars() {
    assert_eq!(chars_from_bytes(b"0a1B"), vec!['0', 'a', '1', 'B']);
    assert_eq!(chars_from_bytes(&[0xe9]), vec!['\u{e9}']);
    assert!(chars_from_bytes(&[]).is_empty());
}

#[test]
fn hex_text_is_lower_case_high_digit_first() {
    assert_eq!(to_hex_text(&[0x00, 0xab, 0x7f, 0x10]), b"00ab7f10".to_vec());
    assert!(to_hex_text(&[]).is_empty());
}

#[test]
fn hex_text_reads_back() {
    for b in 0..=255u8 {
        let text = chars_from_bytes(&to_hex_text(&[b]));
        assert_eq!(hex_to_dec(text[1], text[0]), b);
    }
}
