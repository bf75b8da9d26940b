use beehive::chrome::{footer_segments, header_segments, sidebar_width_for, Tone};
use beehive::events::{paste_text, route_event, EventRoute};
use beehive::keymap::ModeKind;
use beehive::keys::{KeyCode, KeyEvent, KeyModifiers};
use beehive::state::Focus;
use beehive::terminal::{
    Event, MouseButton, MouseEvent, MouseEventKind, MouseProtocolEncoding, MouseProtocolMode, Rect,
    TerminalModes,
};

fn modes(mouse: MouseProtocolMode) -> TerminalModes {
    TerminalModes {
        application_cursor: false,
        keyboard_enhanced: false,
        bracketed_paste: false,
        focus_reporting: false,
        alternate_screen: false,
        alternate_scroll: false,
        mouse_protocol_mode: mouse,
        mouse_protocol_encoding: MouseProtocolEncoding::Default,
    }
}

fn area() -> Rect {
    Rect { x: 30, y: 1, width: 50, height: 20 }
}

fn key(code: KeyCode, modifiers: KeyModifiers) -> Event {
    Event::Key(KeyEvent { code, modifiers })
}

#[test]
fn keys_in_terminal_pane_are_encoded() {
    let m = modes(MouseProtocolMode::Disabled);
    match route_event(&key(KeyCode::Char('a'), KeyModifiers::none()), false, Focus::Terminal, ModeKind::Normal, Some(&m), &area()) {
        EventRoute::Forward(b) => assert_eq!(b, vec![b'a']),
        _ => panic!("expected bytes"),
    }
    assert!(matches!(
        route_event(&key(KeyCode::Char(' '), KeyModifiers::control()), false, Focus::Terminal, ModeKind::Normal, Some(&m), &area()),
        EventRoute::FocusSidebar
    ));
    assert!(matches!(
        route_event(&key(KeyCode::Char('a'), KeyModifiers::none()), true, Focus::Terminal, ModeKind::Normal, Some(&m), &area()),
        EventRoute::Ignore
    ));
    assert!(matches!(
        route_event(&key(KeyCode::Char('a'), KeyModifiers::none()), false, Focus::Sidebar, ModeKind::Normal, Some(&m), &area()),
        EventRoute::UiKey
    ));
    assert!(matches!(
        route_event(&key(KeyCode::Char('a'), KeyModifiers::none()), false, Focus::Terminal, ModeKind::Normal, None, &area()),
        EventRoute::Nothing
    ));
}

#[test]
fn left_click_release_may_open_a_link() {
    let m = modes(MouseProtocolMode::Disabled);
    let click = Event::Mouse(MouseEvent {
        kind: MouseEventKind::Up(MouseButton::Left),
        column: 35,
        row: 4,
        modifiers: KeyModifiers::none(),
    });
    match route_event(&click, false, Focus::Terminal, ModeKind::Normal, Some(&m), &area()) {
        EventRoute::Click { row, col, .. } => assert_eq!((row, col), (3, 5)),
        _ => panic!("expected a click"),
    }
    // Outside the pane, or with mouse reporting on, it is not a link click.
    let outside = Event::Mouse(MouseEvent {
        kind: MouseEventKind::Up(MouseButton::Left),
        column: 10,
        row: 4,
        modifiers: KeyModifiers::none(),
    });
    assert!(!matches!(
        route_event(&outside, false, Focus::Terminal, ModeKind::Normal, Some(&m), &area()),
        EventRoute::Click { .. }
    ));
    let reporting = modes(MouseProtocolMode::PressRelease);
    assert!(!matches!(
        route_event(&click, false, Focus::Terminal, ModeKind::Normal, Some(&reporting), &area()),
        EventRoute::Click { .. }
    ));
}

#[test]
fn pastes_go_to_prompts() {
    let paste = Event::Paste("x".to_string());
    assert!(matches!(
        route_event(&paste, false, Focus::Sidebar, ModeKind::Input, None, &area()),
        EventRoute::PasteIntoMode
    ));
    assert!(matches!(
        route_event(&paste, false, Focus::Sidebar, ModeKind::Help, None, &area()),
        EventRoute::Nothing
    ));
    let mut value = "hello".to_string();
    let mut cursor = 2;
    paste_text(&mut value, &mut cursor, "XYZ");
    assert_eq!((value.as_str(), cursor), ("heXYZllo", 5));
    let mut cursor = 99;
    paste_text(&mut value, &mut cursor, "!");
    assert_eq!((value.as_str(), cursor), ("heXYZllo!", 100));
}

#[test]
fn footer_and_header_text() {
    let f = footer_segments(Some("Saved"), ModeKind::Normal, Focus::Sidebar, true, true, true);
    assert_eq!(f.len(), 1);
    assert_eq!((f[0].text.as_str(), f[0].tone), (" Saved", Tone::Status));
    let f = footer_segments(None, ModeKind::Help, Focus::Sidebar, true, true, true);
    let text: String = f.iter().map(|s| s.text.as_str()).collect();
    assert_eq!(text, " Esc close");
    let f = footer_segments(None, ModeKind::Normal, Focus::Terminal, true, true, true);
    let text: String = f.iter().map(|s| s.text.as_str()).collect();
    assert_eq!(text, " Ctrl+Space sidebar");
    let f = footer_segments(None, ModeKind::Normal, Focus::Sidebar, false, false, false);
    let text: String = f.iter().map(|s| s.text.as_str()).collect();
    assert_eq!(text, " enter open │ a add │ d del │ s settings │ </> resize │ ? help │ q quit");
    let f = footer_segments(None, ModeKind::Normal, Focus::Sidebar, true, true, true);
    let text: String = f.iter().map(|s| s.text.as_str()).collect();
    assert_eq!(
        text,
        " enter open │ n new │ c copy │ a add │ d del │ s settings │ </> resize │ ? help │ q quit │ C-Spc terminal │ u update"
    );
    let h = header_segments("0.3.1", Some("0.4.0"));
    let text: String = h.iter().map(|s| s.text.as_str()).collect();
    assert_eq!(text, " beehive v0.3.1  v0.4.0 available — 'u' to update");
    assert_eq!(sidebar_width_for(28, 120), 28);
    assert_eq!(sidebar_width_for(90, 120), 60);
    assert_eq!(sidebar_width_for(28, 30), 20);
}
