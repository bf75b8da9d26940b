use std::sync::atomic::AtomicBool;

use beehive::queries::{match_query_kind, match_terminal_query, OutputQueries, QueryKind, QueryState, TerminalScreen};
use beehive::terminal::{MouseProtocolEncoding, MouseProtocolMode};

fn state(row: u16, col: u16) -> QueryState {
    QueryState {
        cursor_row: row,
        cursor_col: col,
        focus_reporting: true,
        alternate_screen: false,
        mouse_protocol_mode: MouseProtocolMode::ButtonMotion,
        mouse_protocol_encoding: MouseProtocolEncoding::Sgr,
        bracketed_paste: true,
        alternate_scroll: false,
    }
}

fn answer(data: &[u8], outer_enhanced: bool) -> Option<(usize, Option<Vec<u8>>)> {
    match_terminal_query(data, outer_enhanced, &state(4, 9))
}

#[test]
fn cursor_position_query_is_answered_one_based() {
    assert_eq!(answer(b"\x1b[6n rest", false), Some((4, Some(b"\x1b[5;10R".to_vec()))));
    assert_eq!(answer(b"\x1b[06n", false), Some((5, Some(b"\x1b[5;10R".to_vec()))));
}

#[test]
fn keyboard_query_follows_the_outer_terminal() {
    assert_eq!(answer(b"\x1b[?u", true), Some((4, Some(b"\x1b[?3u".to_vec()))));
    assert_eq!(answer(b"\x1b[?u", false), Some((4, Some(b"\x1b[?1u".to_vec()))));
}

#[test]
fn dec_mode_queries_report_the_modes() {
    assert_eq!(answer(b"\x1b[?1004$p", false), Some((9, Some(b"\x1b[?1004;1$y".to_vec()))));
    assert_eq!(answer(b"\x1b[?1007$p", false), Some((9, Some(b"\x1b[?1007;2$y".to_vec()))));
    assert_eq!(answer(b"\x1b[?1002$p", false), Some((9, Some(b"\x1b[?1002;1$y".to_vec()))));
    assert_eq!(answer(b"\x1b[?1003$p", false), Some((9, Some(b"\x1b[?1003;2$y".to_vec()))));
    assert_eq!(answer(b"\x1b[?2004$p", false), Some((9, Some(b"\x1b[?2004;1$y".to_vec()))));
    assert_eq!(answer(b"\x1b[?42$p", false), Some((7, Some(b"\x1b[?42;0$y".to_vec()))));
    // A mode number too large for 16 bits is read as 0.
    assert_eq!(answer(b"\x1b[?70000$p", false), Some((10, Some(b"\x1b[?0;0$y".to_vec()))));
}

#[test]
fn other_sequences_are_consumed_without_answer() {
    assert_eq!(answer(b"\x1b[31m", false), Some((5, None)));
    assert_eq!(answer(b"\x1b[5n", false), Some((4, None)));
    assert_eq!(answer(b"\x1b[?25h", false), Some((6, None)));
    assert_eq!(answer(b"\x1b[>1u", false), Some((5, None)));
    assert_eq!(answer(b"\x1b[?1004$x", false), Some((9, None)));
    assert!(matches!(match_query_kind(b"\x1b[?25h"), Some((6, QueryKind::Other))));
}

#[test]
fn incomplete_or_non_csi_bytes_match_nothing() {
    assert_eq!(answer(b"\x1b[", false), None);
    assert_eq!(answer(b"\x1b[?1004", false), None);
    assert_eq!(answer(b"\x1b[?1004$", false), None);
    assert_eq!(answer(b"\x1b]10;?\x1b\\", false), None);
    assert_eq!(answer(b"\x1b(B", false), None);
}

#[test]
fn output_chunks_answer_queries_and_keep_split_ones() {
    let mut parser = TerminalScreen::new(24, 80, 0);
    let focus = AtomicBool::new(true);
    let alt_scroll = AtomicBool::new(false);
    let mut queries = OutputQueries::new();

    let r = queries.process_output_chunk(&mut parser, b"\x1b[6n", false, &focus, &alt_scroll);
    assert_eq!(r, b"\x1b[1;1R".to_vec());
    assert!(queries.query_tail.is_empty());

    // Text moves the cursor before the split query completes.
    let r = queries.process_output_chunk(&mut parser, b"abc\x1b[", false, &focus, &alt_scroll);
    assert!(r.is_empty());
    assert_eq!(queries.query_tail, b"\x1b[".to_vec());
    let r = queries.process_output_chunk(&mut parser, b"6n", false, &focus, &alt_scroll);
    assert_eq!(r, b"\x1b[1;4R".to_vec());
    assert!(queries.query_tail.is_empty());
    assert_eq!(parser.parser().screen().contents(), "abc");

    // Several queries in one read are answered in order.
    let r = queries.process_output_chunk(&mut parser, b"\x1b[?u\x1b[?1004$p\x1b[?1007$p", true, &focus, &alt_scroll);
    assert_eq!(r, b"\x1b[?3u\x1b[?1004;1$y\x1b[?1007;2$y".to_vec());

    // Other escapes are not kept.
    let r = queries.process_output_chunk(&mut parser, b"\x1b(B", false, &focus, &alt_scroll);
    assert!(r.is_empty());
    assert!(queries.query_tail.is_empty());
}

#[test]
fn terminal_screen_keeps_its_size_and_takes_wide_characters() {
    let mut screen = TerminalScreen::new(2, 2, 0);
    let focus = AtomicBool::new(false);
    let alt_scroll = AtomicBool::new(false);
    let mut queries = OutputQueries::new();
    let r = queries.process_output_chunk(&mut screen, "a\u{4e2d}\u{4e2d}b\u{4e2d}\r\n\u{4e2d}".as_bytes(), false, &focus, &alt_scroll);
    assert!(r.is_empty());
    assert_eq!(screen.parser().screen().size(), (2, 2));
    screen.set_size(3, 10);
    assert_eq!(screen.parser().screen().size(), (3, 10));
}

#[test]
fn answers_read_the_screen_as_the_output_left_it() {
    let mut screen = TerminalScreen::new(24, 80, 0);
    let focus = AtomicBool::new(false);
    let alt_scroll = AtomicBool::new(false);
    let mut queries = OutputQueries::new();
    let r = queries.process_output_chunk(&mut screen, b"\x1b[?1049$p\x1b[?1049h\x1b[?1049$p", false, &focus, &alt_scroll);
    assert_eq!(r, b"\x1b[?1049;2$y\x1b[?1049;1$y".to_vec());
    let r = queries.process_output_chunk(&mut screen, b"\x1b[?2004h\x1b[?1006h\x1b[?1002h\x1b[?2004$p\x1b[?1006$p\x1b[?1003$p\x1b[?1002$p", false, &focus, &alt_scroll);
    assert_eq!(r, b"\x1b[?2004;1$y\x1b[?1006;1$y\x1b[?1003;2$y\x1b[?1002;1$y".to_vec());
    let r = queries.process_output_chunk(&mut screen, b"\x1b[5;7H\x1b[6n", false, &focus, &alt_scroll);
    assert_eq!(r, b"\x1b[5;7R".to_vec());
    screen.set_size(3, 4);
    let r = queries.process_output_chunk(&mut screen, b"\x1b[6n", false, &focus, &alt_scroll);
    assert_eq!(r, b"\x1b[3;4R".to_vec());
}

#[test]
fn screen_modes_and_snapshot_read_the_emulator() {
    let mut screen = TerminalScreen::new(3, 4, 0);
    let focus = AtomicBool::new(false);
    let alt_scroll = AtomicBool::new(false);
    let mut queries = OutputQueries::new();
    let r = queries.process_output_chunk(&mut screen, b"\x1b[?1hab\r\ncd\x1b[?2004h\x1b[?1000h\x1b[?1006h", false, &focus, &alt_scroll);
    assert!(r.is_empty());
    let m = screen.modes(true, false, true);
    assert!(m.application_cursor);
    assert!(m.keyboard_enhanced);
    assert!(m.bracketed_paste);
    assert!(!m.focus_reporting);
    assert!(!m.alternate_screen);
    assert!(m.alternate_scroll);
    assert!(matches!(m.mouse_protocol_mode, beehive::terminal::MouseProtocolMode::PressRelease));
    assert!(matches!(m.mouse_protocol_encoding, beehive::terminal::MouseProtocolEncoding::Sgr));
    let snap = screen.snapshot();
    assert_eq!((snap.rows, snap.cols), (3, 4));
    assert_eq!(snap.cells[0][0], "a");
    assert_eq!(snap.cells[0][1], "b");
    assert_eq!(snap.cells[1][1], "d");
    assert_eq!(snap.cells[2][3], "");
}
