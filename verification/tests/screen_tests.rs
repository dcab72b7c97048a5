use emu8::{screen_reply, ScreenReply};

#[test]
fn hex_code_names_character() {
    assert_eq!(screen_reply("0x41"), ScreenReply::Character(0x41));
    assert_eq!(screen_reply("0X7a\n"), ScreenReply::Character(0x7a));
    assert_eq!(screen_reply("  0xFF \t\r\n"), ScreenReply::Character(0xff));
    assert_eq!(screen_reply("0x+5"), ScreenReply::Character(5));
}

#[test]
fn unicode_white_space_is_trimmed() {
    assert_eq!(screen_reply("\u{3000}0x20\u{a0}"), ScreenReply::Character(0x20));
}

#[test]
fn invalid_hex() {
    assert_eq!(screen_reply("0xzz"), ScreenReply::InvalidHex);
    assert_eq!(screen_reply("0x-5"), ScreenReply::InvalidHex);
    assert_eq!(screen_reply("0x+g"), ScreenReply::InvalidHex);
    assert_eq!(screen_reply("0x\u{e9}"), ScreenReply::InvalidHex);
}

#[test]
fn invalid_format() {
    assert_eq!(screen_reply("0x4"), ScreenReply::InvalidFormat);
    assert_eq!(screen_reply("0x414"), ScreenReply::InvalidFormat);
    assert_eq!(screen_reply("hello"), ScreenReply::InvalidFormat);
    assert_eq!(screen_reply("1x41"), ScreenReply::InvalidFormat);
    assert_eq!(screen_reply(""), ScreenReply::InvalidFormat);
}
