use emu8::{key_to_ascii, Key, KeyboardController, FIFO_CAPACITY};

#[test]
fn pressed_sets_bit_seven() {
    let mut kb = KeyboardController::new();
    assert!(!kb.status());
    kb.push_key(b'A', true);
    kb.push_key(b'A', false);
    kb.push_key(0xC1, false);
    assert!(kb.status());
    assert_eq!(kb.read_data(), Some(0xC1));
    assert_eq!(kb.read_data(), Some(0x41));
    assert_eq!(kb.read_data(), Some(0x41));
    assert_eq!(kb.read_data(), None);
    assert!(!kb.status());
}

#[test]
fn first_in_first_out() {
    let mut kb = KeyboardController::new();
    for c in b"HELLO" {
        kb.push_key(*c, false);
    }
    let mut out = Vec::new();
    while kb.status() {
        out.push(kb.read_data().unwrap());
    }
    assert_eq!(out, b"HELLO".to_vec());
}

#[test]
fn full_queue_drops_events() {
    let mut kb = KeyboardController::new();
    for i in 0..20u8 {
        kb.push_key(i, false);
    }
    let mut out = Vec::new();
    while let Some(v) = kb.read_data() {
        out.push(v);
    }
    assert_eq!(out.len(), FIFO_CAPACITY);
    assert_eq!(out, (0..16u8).collect::<Vec<u8>>());
}

#[test]
fn key_codes() {
    assert_eq!(key_to_ascii(Key::A), Some(b'A'));
    assert_eq!(key_to_ascii(Key::Z), Some(b'Z'));
    assert_eq!(key_to_ascii(Key::Space), Some(b' '));
    assert_eq!(key_to_ascii(Key::Return), Some(b'\n'));
    assert_eq!(key_to_ascii(Key::Key1), Some(b'1'));
    assert_eq!(key_to_ascii(Key::Key0), Some(b'0'));
    assert_eq!(key_to_ascii(Key::Other), None);
}
