use beehive::keyboard::{detect_keyboard_protocol, keyboard_protocol_update, query_response, KeyboardProtocol};
use std::sync::atomic::{AtomicU8, Ordering};

#[test]
fn test_detect_push() {
    let flags = AtomicU8::new(0);
    detect_keyboard_protocol(b"\x1b[>1u", &flags);
    assert_eq!(flags.load(Ordering::SeqCst), 1);
}

#[test]
fn test_detect_push_flags_3() {
    let flags = AtomicU8::new(0);
    detect_keyboard_protocol(b"\x1b[>3u", &flags);
    assert_eq!(flags.load(Ordering::SeqCst), 3);
}

#[test]
fn test_detect_pop() {
    let flags = AtomicU8::new(3);
    detect_keyboard_protocol(b"\x1b[<u", &flags);
    assert_eq!(flags.load(Ordering::SeqCst), 0);
}

#[test]
fn test_detect_pop_n() {
    let flags = AtomicU8::new(3);
    detect_keyboard_protocol(b"\x1b[<1u", &flags);
    assert_eq!(flags.load(Ordering::SeqCst), 0);
}

#[test]
fn test_detect_push_in_stream() {
    let flags = AtomicU8::new(0);
    let mut data = Vec::new();
    data.extend_from_slice(b"Hello world\r\n");
    data.extend_from_slice(b"\x1b[>1u");
    data.extend_from_slice(b"more output");
    detect_keyboard_protocol(&data, &flags);
    assert_eq!(flags.load(Ordering::SeqCst), 1);
}

#[test]
fn test_detect_set_mode() {
    let flags = AtomicU8::new(0);
    detect_keyboard_protocol(b"\x1b[=1;1u", &flags);
    assert_eq!(flags.load(Ordering::SeqCst), 1);
}

#[test]
fn test_no_false_positive() {
    let flags = AtomicU8::new(0);
    detect_keyboard_protocol(b"\x1b[u", &flags);
    assert_eq!(flags.load(Ordering::SeqCst), 0);
}

#[test]
fn test_no_false_positive_csi_number_u() {
    let flags = AtomicU8::new(0);
    detect_keyboard_protocol(b"\x1b[13;2u", &flags);
    assert_eq!(flags.load(Ordering::SeqCst), 0);
}

#[test]
fn query_response_reports_outer_support() {
    assert_eq!(query_response(false), b"\x1b[?1u".to_vec());
    assert_eq!(query_response(true), b"\x1b[?3u".to_vec());
}

#[test]
fn keyboard_protocol_tracks_flags_and_force() {
    let mut kp = KeyboardProtocol::new(false);
    assert!(!kp.is_enhanced());
    detect_keyboard_protocol(b"\x1b[>1u", &kp.flags_ref());
    assert_eq!(kp.flags_value(), 1);
    assert!(kp.is_enhanced());
    detect_keyboard_protocol(b"\x1b[<u", &kp.flags_ref());
    assert!(!kp.is_enhanced());
    kp.set_force_enhanced(true);
    assert!(kp.is_enhanced());
}

#[test]
fn enhanced_keys_follow_the_override_and_the_flags() {
    use_decisions();
}

fn use_decisions() {
    assert!(beehive::keyboard::enhanced(true, 0));
    assert!(beehive::keyboard::enhanced(false, 1));
    assert!(!beehive::keyboard::enhanced(false, 0));
    assert!(beehive::keyboard::env_switch_on(Some("1")));
    assert!(beehive::keyboard::env_switch_on(Some("TrUe")));
    assert!(beehive::keyboard::env_switch_on(Some("true")));
    assert!(!beehive::keyboard::env_switch_on(Some("yes")));
    assert!(!beehive::keyboard::env_switch_on(Some("0")));
    assert!(!beehive::keyboard::env_switch_on(Some("")));
    assert!(!beehive::keyboard::env_switch_on(None));
    let kp = beehive::keyboard::KeyboardProtocol::new(true);
    assert!(kp.is_enhanced());
    let mut kp = beehive::keyboard::KeyboardProtocol::new(false);
    assert!(!kp.is_enhanced());
    assert_eq!(kp.flags_value(), 0);
    kp.set_force_enhanced(true);
    assert!(kp.is_enhanced());
    beehive::keyboard::detect_keyboard_protocol(b"\x1b[>3u", &kp.flags_ref());
    assert_eq!(kp.flags_value(), 3);
}

#[test]
fn the_last_negotiation_sequence_wins() {
    assert_eq!(keyboard_protocol_update(b"\x1b[>3u\x1b[<u"), Some(0));
    assert_eq!(keyboard_protocol_update(b"\x1b[<u\x1b[>3u"), Some(3));
    assert_eq!(keyboard_protocol_update(b"text\x1b[>1\x1b[>2u"), Some(2));
}

#[test]
fn pushed_flags_are_held_to_one_through_255() {
    assert_eq!(keyboard_protocol_update(b"\x1b[>300u"), Some(255));
    assert_eq!(keyboard_protocol_update(b"\x1b[>0u"), Some(1));
    assert_eq!(keyboard_protocol_update(b"\x1b[>u"), None);
    assert_eq!(keyboard_protocol_update(b"plain output, \x1b[1m bold"), None);
}
