use beehive::keys::{key_to_bytes, needs_csi_u, xterm_modifier, KeyCode, KeyEvent, KeyModifiers};
use beehive::screen::{url_at_position, ScreenSnapshot};
use beehive::terminal::{
    arrow_key_bytes, cursor_position_response, dec_mode_response, scan_csi_sequence_len,
    terminal_query_needs_more_bytes, DecModeDetector, MouseProtocolEncoding, MouseProtocolMode,
};
use std::sync::atomic::{AtomicBool, Ordering};

fn key(code: KeyCode, modifiers: KeyModifiers) -> KeyEvent {
    KeyEvent { code, modifiers }
}

#[test]
fn test_xmod_none() {
    assert_eq!(xterm_modifier(&KeyModifiers::none()), 0);
}

#[test]
fn test_xmod_shift() {
    assert_eq!(xterm_modifier(&KeyModifiers::shift()), 2);
}

#[test]
fn test_xmod_ctrl() {
    assert_eq!(xterm_modifier(&KeyModifiers::control()), 5);
}

#[test]
fn test_xmod_alt() {
    assert_eq!(xterm_modifier(&KeyModifiers::alt()), 3);
}

#[test]
fn test_xmod_super() {
    assert_eq!(xterm_modifier(&KeyModifiers::super_key()), 9);
}

#[test]
fn test_xmod_ctrl_shift() {
    assert_eq!(
        xterm_modifier(&KeyModifiers::control().union(KeyModifiers::shift())),
        6
    );
}

#[test]
fn test_xmod_shift_super() {
    assert_eq!(
        xterm_modifier(&KeyModifiers::shift().union(KeyModifiers::super_key())),
        10
    );
}

#[test]
fn test_xmod_meta() {
    assert_eq!(xterm_modifier(&KeyModifiers::meta()), 33);
}

#[test]
fn test_csi_u_needed_for_super() {
    assert!(needs_csi_u(&KeyModifiers::super_key()));
}

#[test]
fn test_csi_u_needed_for_meta() {
    assert!(needs_csi_u(&KeyModifiers::meta()));
}

#[test]
fn test_csi_u_needed_for_ctrl_shift() {
    assert!(needs_csi_u(&KeyModifiers::control().union(KeyModifiers::shift())));
}

#[test]
fn test_csi_u_not_needed_for_ctrl_alone() {
    assert!(!needs_csi_u(&KeyModifiers::control()));
}

#[test]
fn test_csi_u_not_needed_for_shift_alone() {
    assert!(!needs_csi_u(&KeyModifiers::shift()));
}

#[test]
fn test_dec_mode_detector_handles_split_sequences() {
    let focus = AtomicBool::new(false);
    let alternate_scroll = AtomicBool::new(false);
    let mut detector = DecModeDetector::new();

    detector.process(b"\x1b[?100", &focus, &alternate_scroll);
    assert!(!focus.load(Ordering::SeqCst));

    detector.process(b"4h", &focus, &alternate_scroll);
    assert!(focus.load(Ordering::SeqCst));

    detector.process(b"\x1b[?1004l", &focus, &alternate_scroll);
    assert!(!focus.load(Ordering::SeqCst));
}

#[test]
fn test_dec_mode_detector_tracks_alternate_scroll() {
    let focus = AtomicBool::new(false);
    let alternate_scroll = AtomicBool::new(false);
    let mut detector = DecModeDetector::new();

    detector.process(b"\x1b[?1007h", &focus, &alternate_scroll);
    assert!(alternate_scroll.load(Ordering::SeqCst));

    detector.process(b"\x1b[?1007l", &focus, &alternate_scroll);
    assert!(!alternate_scroll.load(Ordering::SeqCst));
}

#[test]
fn test_scan_csi_sequence_len_consumes_complete_standard_query() {
    assert_eq!(scan_csi_sequence_len(b"\x1b[6n"), Some(4));
}

#[test]
fn test_scan_csi_sequence_len_consumes_complete_private_query() {
    assert_eq!(scan_csi_sequence_len(b"\x1b[?1004$p"), Some(9));
}

#[test]
fn test_scan_csi_sequence_len_waits_for_complete_sequence() {
    assert_eq!(scan_csi_sequence_len(b"\x1b[>"), None);
}

#[test]
fn test_terminal_query_tail_only_buffers_csi_sequences() {
    assert!(terminal_query_needs_more_bytes(b"\x1b["));
    assert!(terminal_query_needs_more_bytes(b"\x1b[?1004"));
    assert!(!terminal_query_needs_more_bytes(b"\x1b]10;?\x1b\\"));
    assert!(!terminal_query_needs_more_bytes(b"\x1b(B"));
}

#[test]
fn test_cursor_position_response_uses_standard_cpr_format() {
    assert_eq!(cursor_position_response(4, 9), b"\x1b[5;10R");
}

#[test]
fn test_dec_mode_response_reports_enabled_focus() {
    let bytes = dec_mode_response(
        1004,
        true,
        false,
        &MouseProtocolMode::Disabled,
        &MouseProtocolEncoding::Default,
        false,
        false,
    );
    assert_eq!(bytes, b"\x1b[?1004;1$y");
}

#[test]
fn test_dec_mode_response_reports_unsupported_unknown_mode() {
    let bytes = dec_mode_response(
        42,
        false,
        false,
        &MouseProtocolMode::Disabled,
        &MouseProtocolEncoding::Default,
        false,
        false,
    );
    assert_eq!(bytes, b"\x1b[?42;0$y");
}

#[test]
fn test_dec_mode_response_reports_alternate_scroll() {
    let bytes = dec_mode_response(
        1007,
        false,
        false,
        &MouseProtocolMode::Disabled,
        &MouseProtocolEncoding::Default,
        false,
        true,
    );
    assert_eq!(bytes, b"\x1b[?1007;1$y");
}

#[test]
fn test_arrow_key_bytes_respects_application_cursor_mode() {
    assert_eq!(arrow_key_bytes(KeyCode::Up, false), b"\x1b[A");
    assert_eq!(arrow_key_bytes(KeyCode::Up, true), b"\x1bOA");
}

#[test]
fn test_cmd_a() {
    let ev = key(KeyCode::Char('a'), KeyModifiers::super_key());
    assert_eq!(key_to_bytes(&ev, false, false), b"\x1b[97;9u");
}

#[test]
fn test_cmd_right() {
    let ev = key(KeyCode::Right, KeyModifiers::super_key());
    assert_eq!(key_to_bytes(&ev, false, false), b"\x1b[1;9C");
}

#[test]
fn test_shift_cmd_right() {
    let ev = key(KeyCode::Right, KeyModifiers::shift().union(KeyModifiers::super_key()));
    assert_eq!(key_to_bytes(&ev, false, false), b"\x1b[1;10C");
}

#[test]
fn test_shift_enter_legacy() {
    let ev = key(KeyCode::Enter, KeyModifiers::shift());
    assert_eq!(key_to_bytes(&ev, false, false), b"\x1b[13;2u");
}

#[test]
fn test_shift_enter_enhanced() {
    let ev = key(KeyCode::Enter, KeyModifiers::shift());
    assert_eq!(key_to_bytes(&ev, false, true), b"\x1b[13;2u");
}

#[test]
fn test_enter_legacy() {
    let ev = key(KeyCode::Enter, KeyModifiers::none());
    assert_eq!(key_to_bytes(&ev, false, false), vec![b'\r']);
}

#[test]
fn test_enter_enhanced() {
    let ev = key(KeyCode::Enter, KeyModifiers::none());
    assert_eq!(key_to_bytes(&ev, false, true), b"\x1b[13u");
}

#[test]
fn test_tab_legacy() {
    let ev = key(KeyCode::Tab, KeyModifiers::none());
    assert_eq!(key_to_bytes(&ev, false, false), vec![b'\t']);
}

#[test]
fn test_tab_enhanced() {
    let ev = key(KeyCode::Tab, KeyModifiers::none());
    assert_eq!(key_to_bytes(&ev, false, true), b"\x1b[9u");
}

#[test]
fn test_esc_legacy() {
    let ev = key(KeyCode::Esc, KeyModifiers::none());
    assert_eq!(key_to_bytes(&ev, false, false), vec![0x1b]);
}

#[test]
fn test_esc_enhanced() {
    let ev = key(KeyCode::Esc, KeyModifiers::none());
    assert_eq!(key_to_bytes(&ev, false, true), b"\x1b[27u");
}

#[test]
fn test_backspace_legacy() {
    let ev = key(KeyCode::Backspace, KeyModifiers::none());
    assert_eq!(key_to_bytes(&ev, false, false), vec![0x7f]);
}

#[test]
fn test_backspace_enhanced() {
    let ev = key(KeyCode::Backspace, KeyModifiers::none());
    assert_eq!(key_to_bytes(&ev, false, true), b"\x1b[127u");
}

#[test]
fn test_ctrl_shift_t() {
    let ev = key(KeyCode::Char('T'), KeyModifiers::control().union(KeyModifiers::shift()));
    assert_eq!(key_to_bytes(&ev, false, false), b"\x1b[116;6u");
}

#[test]
fn test_ctrl_c() {
    let ev = key(KeyCode::Char('c'), KeyModifiers::control());
    assert_eq!(key_to_bytes(&ev, false, false), vec![0x03]);
}

#[test]
fn test_alt_a() {
    let ev = key(KeyCode::Char('a'), KeyModifiers::alt());
    assert_eq!(key_to_bytes(&ev, false, false), vec![0x1b, b'a']);
}

#[test]
fn test_shift_tab_legacy() {
    let ev = key(KeyCode::Tab, KeyModifiers::shift());
    assert_eq!(key_to_bytes(&ev, false, false), vec![0x1b, b'[', b'Z']);
}

#[test]
fn test_ctrl_tab() {
    let ev = key(KeyCode::Tab, KeyModifiers::control());
    assert_eq!(key_to_bytes(&ev, false, false), b"\x1b[9;5u");
}

#[test]
fn test_ctrl_enter() {
    let ev = key(KeyCode::Enter, KeyModifiers::control());
    assert_eq!(key_to_bytes(&ev, false, false), b"\x1b[13;5u");
}

#[test]
fn test_cmd_enter() {
    let ev = key(KeyCode::Enter, KeyModifiers::super_key());
    assert_eq!(key_to_bytes(&ev, false, false), b"\x1b[13;9u");
}

#[test]
fn test_shift_up() {
    let ev = key(KeyCode::Up, KeyModifiers::shift());
    assert_eq!(key_to_bytes(&ev, false, false), b"\x1b[1;2A");
}

#[test]
fn test_ctrl_right() {
    let ev = key(KeyCode::Right, KeyModifiers::control());
    assert_eq!(key_to_bytes(&ev, false, false), b"\x1b[1;5C");
}

#[test]
fn test_plain_a() {
    let ev = key(KeyCode::Char('a'), KeyModifiers::none());
    assert_eq!(key_to_bytes(&ev, false, false), vec![b'a']);
}

#[test]
fn test_plain_enter() {
    let ev = key(KeyCode::Enter, KeyModifiers::none());
    assert_eq!(key_to_bytes(&ev, false, false), vec![b'\r']);
}

#[test]
fn test_arrow_up_normal() {
    let ev = key(KeyCode::Up, KeyModifiers::none());
    assert_eq!(key_to_bytes(&ev, false, false), b"\x1b[A");
}

#[test]
fn test_arrow_up_app_cursor() {
    let ev = key(KeyCode::Up, KeyModifiers::none());
    assert_eq!(key_to_bytes(&ev, true, false), b"\x1bOA");
}

#[test]
fn test_f1_plain() {
    let ev = key(KeyCode::F(1), KeyModifiers::none());
    assert_eq!(key_to_bytes(&ev, false, false), b"\x1bOP");
}

#[test]
fn test_f5_ctrl() {
    let ev = key(KeyCode::F(5), KeyModifiers::control());
    assert_eq!(key_to_bytes(&ev, false, false), b"\x1b[15;5~");
}

/// A screen of two rows whose first row shows `text`, one character per cell.
fn screen_with_text(text: &str, cols: u16) -> ScreenSnapshot {
    let mut first: Vec<String> = text.chars().map(|c| c.to_string()).collect();
    while first.len() < cols as usize {
        first.push(String::new());
    }
    first.truncate(cols as usize);
    let second: Vec<String> = (0..cols).map(|_| String::new()).collect();
    ScreenSnapshot { rows: 2, cols, cells: vec![first, second] }
}

#[test]
fn test_url_at_position_finds_https() {
    let screen = screen_with_text("Visit https://example.com/path for info", 60);
    assert_eq!(
        url_at_position(&screen, 0, 14),
        Some("https://example.com/path".to_string())
    );
}

#[test]
fn test_url_at_position_finds_http() {
    let screen = screen_with_text("Go to http://test.org now", 40);
    assert_eq!(url_at_position(&screen, 0, 10), Some("http://test.org".to_string()));
}

#[test]
fn test_url_at_position_returns_none_outside_url() {
    let screen = screen_with_text("Visit https://example.com for info", 60);
    assert_eq!(url_at_position(&screen, 0, 2), None);
    assert_eq!(url_at_position(&screen, 0, 28), None);
}

#[test]
fn test_url_at_position_strips_trailing_punctuation() {
    let screen = screen_with_text("See https://example.com/page.", 40);
    assert_eq!(
        url_at_position(&screen, 0, 10),
        Some("https://example.com/page".to_string())
    );
}

#[test]
fn test_url_at_position_out_of_bounds() {
    let screen = screen_with_text("https://x.com", 20);
    assert_eq!(url_at_position(&screen, 5, 0), None);
    assert_eq!(url_at_position(&screen, 0, 25), None);
}

#[test]
fn url_ends_at_a_delimiter_and_skips_bare_schemes() {
    let screen = screen_with_text("https:// x <http://a.b/c>", 40);
    // A scheme with nothing after it is no URL.
    assert_eq!(url_at_position(&screen, 0, 3), None);
    assert_eq!(url_at_position(&screen, 0, 14), Some("http://a.b/c".to_string()));
}

#[test]
fn space_is_csi_u_in_enhanced_mode() {
    assert_eq!(key_to_bytes(&key(KeyCode::Char(' '), KeyModifiers::none()), false, true), b"\x1b[32u".to_vec());
    assert_eq!(key_to_bytes(&key(KeyCode::Char(' '), KeyModifiers::shift()), false, true), b"\x1b[32;2u".to_vec());
    assert_eq!(key_to_bytes(&key(KeyCode::Char(' '), KeyModifiers::none()), false, false), b" ".to_vec());
    assert_eq!(key_to_bytes(&key(KeyCode::Char(' '), KeyModifiers::control()), false, false), vec![0u8]);
}
