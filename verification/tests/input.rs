use std::collections::HashSet;

use rpack_tools::input::{
    high_word, key_down, key_state_down, key_up, send_combo, send_combo_without_alt, tap_key,
    wheel_delta, KeyEvent, VK_CONTROL, VK_MENU, VK_SHIFT, VK_T, VK_TAB, VK_VOLUME_MUTE,
    VK_VOLUME_UP, VK_W,
};
use rpack_tools::text::{is_whitespace, wide_nul};

fn down(key: u8) -> KeyEvent {
    KeyEvent { key, release: false }
}

fn up(key: u8) -> KeyEvent {
    KeyEvent { key, release: true }
}

fn held_after(mut held: HashSet<u8>, events: &[KeyEvent]) -> HashSet<u8> {
    for e in events {
        if e.release {
            held.remove(&e.key);
        } else {
            held.insert(e.key);
        }
    }
    held
}

#[test]
fn high_word_takes_upper_half() {
    assert_eq!(high_word(0x0078_0000), 0x78);
    assert_eq!(high_word(0xFF88_1234), 0xFF88);
    assert_eq!(high_word(0x0000_FFFF), 0);
    assert_eq!(high_word(u32::MAX), 0xFFFF);
}

#[test]
fn wheel_delta_is_signed() {
    assert_eq!(wheel_delta(0x0078_0000), 120);
    assert_eq!(wheel_delta(0xFF88_0000), -120);
    assert_eq!(wheel_delta(0x8000_0000), i16::MIN);
    assert_eq!(wheel_delta(0x0000_FFFF), 0);
}

#[test]
fn key_state_down_reads_top_bit() {
    assert!(key_state_down(i16::MIN));
    assert!(key_state_down(-32767));
    assert!(key_state_down(-1));
    assert!(!key_state_down(0));
    assert!(!key_state_down(1));
    assert!(!key_state_down(i16::MAX));
}

#[test]
fn key_events_and_taps() {
    assert_eq!(key_down(VK_TAB), down(VK_TAB));
    assert_eq!(key_up(VK_TAB), up(VK_TAB));
    assert_eq!(tap_key(VK_VOLUME_MUTE), vec![down(VK_VOLUME_MUTE), up(VK_VOLUME_MUTE)]);
}

#[test]
fn send_combo_orders_modifiers() {
    assert_eq!(
        send_combo(&[VK_CONTROL, VK_SHIFT], VK_TAB),
        vec![
            down(VK_CONTROL),
            down(VK_SHIFT),
            down(VK_TAB),
            up(VK_TAB),
            up(VK_SHIFT),
            up(VK_CONTROL)
        ]
    );
    assert_eq!(send_combo(&[], VK_W), vec![down(VK_W), up(VK_W)]);
}

#[test]
fn send_combo_without_alt_wraps_in_alt() {
    assert_eq!(
        send_combo_without_alt(&[VK_CONTROL], VK_W),
        vec![up(VK_MENU), down(VK_CONTROL), down(VK_W), up(VK_W), up(VK_CONTROL), down(VK_MENU)]
    );
}

#[test]
fn combo_releases_what_it_presses() {
    let before: HashSet<u8> = [VK_MENU, 0x41].into_iter().collect();
    let after = held_after(before.clone(), &send_combo(&[VK_CONTROL, VK_SHIFT], VK_T));
    assert_eq!(after, before);
    let with_ctrl: HashSet<u8> = [VK_CONTROL, 0x41].into_iter().collect();
    let after = held_after(with_ctrl, &send_combo(&[VK_CONTROL], VK_TAB));
    assert_eq!(after, [0x41].into_iter().collect());
    let after = held_after(HashSet::new(), &tap_key(VK_VOLUME_UP));
    assert!(after.is_empty());
}

#[test]
fn combo_without_alt_restores_alt_and_hides_it_from_key() {
    let before: HashSet<u8> = [VK_MENU].into_iter().collect();
    let events = send_combo_without_alt(&[VK_CONTROL, VK_SHIFT], VK_TAB);
    assert_eq!(held_after(before.clone(), &events), before);
    let at_key = held_after(before, &events[..4]);
    assert_eq!(at_key, [VK_CONTROL, VK_SHIFT, VK_TAB].into_iter().collect());
}

#[test]
fn wide_nul_encodes_utf16() {
    assert_eq!(wide_nul("ab"), vec![97, 98, 0]);
    assert_eq!(wide_nul(""), vec![0]);
    assert_eq!(wide_nul("\u{20AC}"), vec![0x20AC, 0]);
    assert_eq!(wide_nul("\u{1F600}"), vec![0xD83D, 0xDE00, 0]);
    for s in ["#FF0080", "rgb(1, 2, 3)\nhsl(0, 0%, 0%)", "Failed: \u{10FFFF}\u{FFFF}é"] {
        let mut expected: Vec<u16> = s.encode_utf16().collect();
        expected.push(0);
        assert_eq!(wide_nul(s), expected);
    }
}

#[test]
fn is_whitespace_matches_std_for_every_char() {
    for v in 0u32..=0x10FFFF {
        if let Some(c) = char::from_u32(v) {
            assert_eq!(is_whitespace(c), c.is_whitespace(), "U+{v:04X}");
        }
    }
}
