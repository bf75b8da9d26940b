//! Terminal-side logic of an embedded terminal pane: mouse and event encoding
//! according to the inner application's modes, and the answers to terminal
//! queries found in its output.

use vstd::prelude::*;

use crate::keys::{key_bytes, key_to_bytes, KeyCode, KeyEvent, KeyModifiers};
use crate::atomics::store_bool;
use crate::keyboard::{is_digit, query_response};
use crate::text::{dec_digits, push_all, push_dec, str_bytes};

use std::sync::atomic::AtomicBool;

verus! {

/// Which mouse events the inner application asked to receive.
pub enum MouseProtocolMode {
    Disabled,
    Press,
    PressRelease,
    ButtonMotion,
    AnyMotion,
}

/// How mouse events are encoded for the inner application.
pub enum MouseProtocolEncoding {
    Default,
    Utf8,
    Sgr,
}

/// The modes of the inner application that event encoding depends on.
pub struct TerminalModes {
    pub application_cursor: bool,
    pub keyboard_enhanced: bool,
    pub bracketed_paste: bool,
    pub focus_reporting: bool,
    pub alternate_screen: bool,
    pub alternate_scroll: bool,
    pub mouse_protocol_mode: MouseProtocolMode,
    pub mouse_protocol_encoding: MouseProtocolEncoding,
}

pub enum MouseButton {
    Left,
    Right,
    Middle,
}

pub enum MouseEventKind {
    Down(MouseButton),
    Up(MouseButton),
    Drag(MouseButton),
    Moved,
    ScrollDown,
    ScrollUp,
    ScrollLeft,
    ScrollRight,
}

/// A mouse event in screen coordinates.
pub struct MouseEvent {
    pub kind: MouseEventKind,
    pub column: u16,
    pub row: u16,
    pub modifiers: KeyModifiers,
}

/// A rectangle of screen cells.
pub struct Rect {
    pub x: u16,
    pub y: u16,
    pub width: u16,
    pub height: u16,
}

/// An input event.
pub enum Event {
    Key(KeyEvent),
    Mouse(MouseEvent),
    Paste(String),
    FocusGained,
    FocusLost,
    Resize(u16, u16),
}

/// The plain arrow key sequence for scrolling in alternate-scroll mode.
pub open spec fn arrow_key_spec(code: KeyCode, app_cursor: bool) -> Seq<u8> {
    key_bytes(KeyEvent { code, modifiers: KeyModifiers { shift: false, control: false, alt: false, super_key: false, hyper: false, meta: false } }, app_cursor, false)
}

/// The bytes of an unmodified key, without enhanced encoding.
pub fn arrow_key_bytes(code: KeyCode, app_cursor: bool) -> (r: Vec<u8>)
    ensures
        r@ == arrow_key_spec(code, app_cursor),
{
    let key = KeyEvent { code, modifiers: KeyModifiers::none() };
    key_to_bytes(&key, app_cursor, false)
}

/// What a wheel event becomes when the application has not asked for mouse
/// events: arrow keys, in the alternate screen with alternate scroll enabled.
pub open spec fn alternate_scroll_spec(kind: MouseEventKind, modes: TerminalModes) -> Seq<u8> {
    if !modes.alternate_screen || !modes.alternate_scroll {
        Seq::empty()
    } else {
        match kind {
            MouseEventKind::ScrollUp => arrow_key_spec(KeyCode::Up, modes.application_cursor),
            MouseEventKind::ScrollDown => arrow_key_spec(KeyCode::Down, modes.application_cursor),
            MouseEventKind::ScrollLeft => arrow_key_spec(KeyCode::Left, modes.application_cursor),
            MouseEventKind::ScrollRight => arrow_key_spec(KeyCode::Right, modes.application_cursor),
            _ => Seq::empty(),
        }
    }
}

pub fn alternate_scroll_bytes(kind: &MouseEventKind, modes: &TerminalModes) -> (r: Vec<u8>)
    ensures
        r@ == alternate_scroll_spec(*kind, *modes),
{
    if !modes.alternate_screen || !modes.alternate_scroll {
        return Vec::new();
    }
    match kind {
        MouseEventKind::ScrollUp => arrow_key_bytes(KeyCode::Up, modes.application_cursor),
        MouseEventKind::ScrollDown => arrow_key_bytes(KeyCode::Down, modes.application_cursor),
        MouseEventKind::ScrollLeft => arrow_key_bytes(KeyCode::Left, modes.application_cursor),
        MouseEventKind::ScrollRight => arrow_key_bytes(KeyCode::Right, modes.application_cursor),
        _ => Vec::new(),
    }
}

pub open spec fn button_code(b: MouseButton) -> nat {
    match b {
        MouseButton::Left => 0,
        MouseButton::Middle => 1,
        MouseButton::Right => 2,
    }
}

/// The X10/SGR button code of a mouse event and whether it is a release.
pub open spec fn mouse_code(kind: MouseEventKind) -> (nat, bool) {
    match kind {
        MouseEventKind::Down(b) => (button_code(b), false),
        MouseEventKind::Up(b) => (button_code(b), true),
        MouseEventKind::Drag(b) => (button_code(b) + 32, false),
        MouseEventKind::Moved => (35, false),
        MouseEventKind::ScrollUp => (64, false),
        MouseEventKind::ScrollDown => (65, false),
        MouseEventKind::ScrollLeft => (66, false),
        MouseEventKind::ScrollRight => (67, false),
    }
}

pub open spec fn is_motion(kind: MouseEventKind) -> bool {
    kind is Drag || kind is Moved
}

/// Whether the mode drops the event.
pub open spec fn mode_filters(mode: MouseProtocolMode, kind: MouseEventKind) -> bool {
    match mode {
        MouseProtocolMode::Disabled => true,
        MouseProtocolMode::Press => mouse_code(kind).1 || is_motion(kind),
        MouseProtocolMode::PressRelease => is_motion(kind),
        MouseProtocolMode::ButtonMotion => kind is Moved,
        MouseProtocolMode::AnyMotion => false,
    }
}

/// The button code with the modifier bits: Shift 4, Alt 8, Ctrl 16.
pub open spec fn mouse_code_with_mods(kind: MouseEventKind, m: KeyModifiers) -> nat {
    mouse_code(kind).0 + (if m.shift {
        4nat
    } else {
        0nat
    }) + (if m.alt {
        8nat
    } else {
        0nat
    }) + (if m.control {
        16nat
    } else {
        0nat
    })
}

/// A coordinate in the default encoding: the low byte of the zero-based
/// coordinate plus 33, saturating at 255.
pub open spec fn default_coord(c: int) -> u8 {
    if c % 256 + 33 > 255 {
        255
    } else {
        (c % 256 + 33) as u8
    }
}

/// The report of a mouse event at zero-based cell (`col`, `row`) with button
/// code `cbm`: SGR `CSI < cbm ; col+1 ; row+1 M/m`, or the default
/// `CSI M cb x y` form, where a release reports button code 3.
pub open spec fn mouse_report(cbm: nat, is_release: bool, col: int, row: int, sgr: bool) -> Seq<u8> {
    if sgr {
        seq![0x1bu8, 0x5bu8, 0x3cu8] + dec_digits(cbm) + seq![0x3bu8] + dec_digits((col + 1) as nat)
            + seq![0x3bu8] + dec_digits((row + 1) as nat) + seq![
            if is_release {
                0x6du8
            } else {
                0x4du8
            },
        ]
    } else if is_release {
        seq![0x1bu8, 0x5bu8, 0x4du8, 35u8, default_coord(col), default_coord(row)]
    } else {
        seq![0x1bu8, 0x5bu8, 0x4du8, (cbm + 32) as u8, default_coord(col), default_coord(row)]
    }
}

/// The bytes of a mouse event for the inner application.
pub open spec fn mouse_spec(mouse: MouseEvent, modes: TerminalModes, area: Rect) -> Seq<u8> {
    let col = mouse.column - area.x;
    let row = mouse.row - area.y;
    if modes.mouse_protocol_mode is Disabled {
        alternate_scroll_spec(mouse.kind, modes)
    } else if col < 0 || row < 0 || col >= area.width || row >= area.height {
        Seq::empty()
    } else if mode_filters(modes.mouse_protocol_mode, mouse.kind) {
        Seq::empty()
    } else {
        mouse_report(
            mouse_code_with_mods(mouse.kind, mouse.modifiers),
            mouse_code(mouse.kind).1,
            col,
            row,
            modes.mouse_protocol_encoding is Sgr,
        )
    }
}

fn button_value(b: &MouseButton) -> (r: u8)
    ensures
        r as nat == button_code(*b),
{
    match b {
        MouseButton::Left => 0,
        MouseButton::Middle => 1,
        MouseButton::Right => 2,
    }
}

fn default_coord_byte(c: u16) -> (r: u8)
    ensures
        r == default_coord(c as int),
{
    let low: u16 = c % 256;
    if low + 33 > 255 {
        255
    } else {
        (low + 33) as u8
    }
}

fn mouse_code_of(kind: &MouseEventKind) -> (r: (u8, bool))
    ensures
        r.0 as nat == mouse_code(*kind).0,
        r.1 == mouse_code(*kind).1,
        r.0 <= 67,
{
    match kind {
        MouseEventKind::Down(b) => (button_value(b), false),
        MouseEventKind::Up(b) => (button_value(b), true),
        MouseEventKind::Drag(b) => (button_value(b) + 32, false),
        MouseEventKind::Moved => (35, false),
        MouseEventKind::ScrollUp => (64, false),
        MouseEventKind::ScrollDown => (65, false),
        MouseEventKind::ScrollLeft => (66, false),
        MouseEventKind::ScrollRight => (67, false),
    }
}

fn mode_drops(mode: &MouseProtocolMode, kind: &MouseEventKind) -> (r: bool)
    ensures
        r == mode_filters(*mode, *kind),
{
    let is_release = match kind {
        MouseEventKind::Up(_) => true,
        _ => false,
    };
    let motion = match kind {
        MouseEventKind::Drag(_) => true,
        MouseEventKind::Moved => true,
        _ => false,
    };
    let moved = match kind {
        MouseEventKind::Moved => true,
        _ => false,
    };
    match mode {
        MouseProtocolMode::Disabled => true,
        MouseProtocolMode::Press => is_release || motion,
        MouseProtocolMode::PressRelease => motion,
        MouseProtocolMode::ButtonMotion => moved,
        MouseProtocolMode::AnyMotion => false,
    }
}

fn mouse_report_bytes(cbm: u8, is_release: bool, cx: u16, cy: u16, sgr: bool) -> (r: Vec<u8>)
    requires
        cbm <= 95,
        cx < 0xffff,
        cy < 0xffff,
    ensures
        r@ == mouse_report(cbm as nat, is_release, cx as int, cy as int, sgr),
{
    let mut v: Vec<u8> = Vec::new();
    v.push(0x1b);
    v.push(0x5b);
    if sgr {
        v.push(0x3c);
        push_dec(&mut v, cbm as u64);
        v.push(0x3b);
        push_dec(&mut v, (cx as u64) + 1);
        v.push(0x3b);
        push_dec(&mut v, (cy as u64) + 1);
        if is_release {
            v.push(0x6d);
        } else {
            v.push(0x4d);
        }
        assert(v@ =~= mouse_report(cbm as nat, is_release, cx as int, cy as int, sgr));
        v
    } else {
        v.push(0x4d);
        if is_release {
            v.push(35);
        } else {
            v.push(cbm + 32);
        }
        v.push(default_coord_byte(cx));
        v.push(default_coord_byte(cy));
        assert(v@ =~= mouse_report(cbm as nat, is_release, cx as int, cy as int, sgr));
        v
    }
}

/// Encodes a mouse event for the inner application, following its mouse
/// protocol mode and encoding; coordinates are taken relative to `term_area`,
/// and events outside it are dropped.
pub fn mouse_to_bytes(mouse: &MouseEvent, modes: &TerminalModes, term_area: &Rect) -> (r: Vec<u8>)
    ensures
        r@ == mouse_spec(*mouse, *modes, *term_area),
{
    if let MouseProtocolMode::Disabled = modes.mouse_protocol_mode {
        return alternate_scroll_bytes(&mouse.kind, modes);
    }
    if mouse.column < term_area.x || mouse.row < term_area.y {
        return Vec::new();
    }
    let cx: u16 = mouse.column - term_area.x;
    let cy: u16 = mouse.row - term_area.y;
    if cx >= term_area.width || cy >= term_area.height {
        return Vec::new();
    }
    if mode_drops(&modes.mouse_protocol_mode, &mouse.kind) {
        return Vec::new();
    }
    let (cb, is_release) = mouse_code_of(&mouse.kind);
    let mut cbm: u8 = cb;
    if mouse.modifiers.shift {
        cbm = cbm + 4;
    }
    if mouse.modifiers.alt {
        cbm = cbm + 8;
    }
    if mouse.modifiers.control {
        cbm = cbm + 16;
    }
    let sgr = match modes.mouse_protocol_encoding {
        MouseProtocolEncoding::Sgr => true,
        _ => false,
    };
    mouse_report_bytes(cbm, is_release, cx, cy, sgr)
}

/// The bytes forwarded to the inner application for an input event.
pub open spec fn event_spec(event: Event, modes: TerminalModes, area: Rect) -> Seq<u8> {
    match event {
        Event::Key(k) => key_bytes(k, modes.application_cursor, modes.keyboard_enhanced),
        Event::Mouse(m) => mouse_spec(m, modes, area),
        Event::Paste(text) => if modes.bracketed_paste {
            seq![0x1bu8, 0x5bu8, 0x32u8, 0x30u8, 0x30u8, 0x7eu8] + vstd::utf8::encode_utf8(text@)
                + seq![0x1bu8, 0x5bu8, 0x32u8, 0x30u8, 0x31u8, 0x7eu8]
        } else {
            vstd::utf8::encode_utf8(text@)
        },
        Event::FocusGained => if modes.focus_reporting {
            seq![0x1bu8, 0x5bu8, 0x49u8]
        } else {
            Seq::empty()
        },
        Event::FocusLost => if modes.focus_reporting {
            seq![0x1bu8, 0x5bu8, 0x4fu8]
        } else {
            Seq::empty()
        },
        Event::Resize(_, _) => Seq::empty(),
    }
}

/// Translates an input event into the bytes to forward to the inner
/// application: keys and mouse events are encoded, pastes are wrapped in
/// bracketed-paste markers when asked for, focus changes are reported when
/// asked for.
pub fn event_to_bytes(event: &Event, modes: &TerminalModes, term_area: &Rect) -> (r: Vec<u8>)
    ensures
        r@ == event_spec(*event, *modes, *term_area),
{
    match event {
        Event::Key(key) => key_to_bytes(key, modes.application_cursor, modes.keyboard_enhanced),
        Event::Mouse(mouse) => mouse_to_bytes(mouse, modes, term_area),
        Event::Paste(text) => {
            let body = str_bytes(text.as_str());
            if modes.bracketed_paste {
                let mut v: Vec<u8> = Vec::new();
                v.push(0x1b);
                v.push(0x5b);
                v.push(0x32);
                v.push(0x30);
                v.push(0x30);
                v.push(0x7e);
                push_all(&mut v, body.as_slice());
                v.push(0x1b);
                v.push(0x5b);
                v.push(0x32);
                v.push(0x30);
                v.push(0x31);
                v.push(0x7e);
                assert(v@ =~= event_spec(*event, *modes, *term_area));
                v
            } else {
                body
            }
        },
        Event::FocusGained => {
            let mut v: Vec<u8> = Vec::new();
            if modes.focus_reporting {
                v.push(0x1b);
                v.push(0x5b);
                v.push(0x49);
                assert(v@ =~= seq![0x1bu8, 0x5bu8, 0x49u8]);
            }
            v
        },
        Event::FocusLost => {
            let mut v: Vec<u8> = Vec::new();
            if modes.focus_reporting {
                v.push(0x1b);
                v.push(0x5b);
                v.push(0x4f);
                assert(v@ =~= seq![0x1bu8, 0x5bu8, 0x4fu8]);
            }
            v
        },
        Event::Resize(_, _) => Vec::new(),
    }
}


/// The length of the complete CSI sequence at the start of `d`: up to and
/// including the first final byte (0x40..=0x7e) after `ESC [`.
pub open spec fn csi_final_at(d: Seq<u8>, i: int) -> Option<int>
    decreases d.len() - i,
{
    if i < 0 || i >= d.len() {
        None
    } else if 0x40 <= d[i] && d[i] <= 0x7e {
        Some(i + 1)
    } else {
        csi_final_at(d, i + 1)
    }
}

pub open spec fn csi_len_spec(d: Seq<u8>) -> Option<int> {
    if d.len() < 3 || d[0] != 0x1b || d[1] != 0x5b {
        None
    } else {
        csi_final_at(d, 2)
    }
}

proof fn lemma_csi_final_at_is(d: Seq<u8>, i: int, n: int)
    requires
        0 <= i,
    ensures
        csi_final_at(d, i) == Some(n) <==> (i < n <= d.len() && 0x40 <= d[n - 1] <= 0x7e && forall|t: int|
            i <= t < n - 1 ==> !(0x40 <= #[trigger] d[t] <= 0x7e)),
    decreases d.len() - i,
{
    if i < d.len() && !(0x40 <= d[i] && d[i] <= 0x7e) {
        lemma_csi_final_at_is(d, i + 1, n);
    }
}

/// A CSI sequence starts with `ESC [` and ends with its first final byte
/// (0x40 to 0x7e) after those two: the scan finds length `n` exactly when
/// the byte at `n - 1` is final and no byte between is.
pub proof fn lemma_csi_length(d: Seq<u8>, n: int)
    ensures
        csi_len_spec(d) == Some(n) <==> (d.len() >= 3 && d[0] == 0x1b && d[1] == 0x5b && 3 <= n <= d.len() && 0x40
            <= d[n - 1] <= 0x7e && forall|t: int| 2 <= t < n - 1 ==> !(0x40 <= #[trigger] d[t] <= 0x7e)),
{
    lemma_csi_final_at_is(d, 2, n);
}

pub open spec fn opt_usize_as_int(o: Option<usize>) -> Option<int> {
    match o {
        Some(v) => Some(v as int),
        None => None,
    }
}

/// The length of the complete CSI sequence that `data` starts with, or `None`
/// when it does not start with `ESC [` or the sequence is not complete yet.
pub fn scan_csi_sequence_len(data: &[u8]) -> (r: Option<usize>)
    ensures
        opt_usize_as_int(r) == csi_len_spec(data@),
{
    if data.len() < 3 || data[0] != 0x1b || data[1] != 0x5b {
        return None;
    }
    assert(csi_len_spec(data@) == csi_final_at(data@, 2));
    let mut i: usize = 2;
    while i < data.len()
        invariant
            2 <= i <= data.len(),
            csi_len_spec(data@) == csi_final_at(data@, 2),
            csi_final_at(data@, 2) == csi_final_at(data@, i as int),
        decreases data.len() - i,
    {
        let b = data[i];
        if 0x40 <= b && b <= 0x7e {
            assert(csi_final_at(data@, i as int) == Some(i as int + 1));
            return Some(i + 1);
        }
        i = i + 1;
    }
    None
}

/// Whether the bytes at an escape may be the start of a CSI sequence that is
/// not complete yet.
pub fn terminal_query_needs_more_bytes(data: &[u8]) -> (r: bool)
    ensures
        r == (data@.len() < 2 || (data@[0] == 0x1b && data@[1] == 0x5b)),
{
    data.len() < 2 || (data[0] == 0x1b && data[1] == 0x5b)
}

/// The cursor position report `CSI row+1 ; col+1 R` for a zero-based position.
pub fn cursor_position_response(row: u16, col: u16) -> (r: Vec<u8>)
    ensures
        r@ == seq![0x1bu8, 0x5bu8] + dec_digits(row as nat + 1) + seq![0x3bu8] + dec_digits(
            col as nat + 1,
        ) + seq![0x52u8],
{
    let mut v: Vec<u8> = Vec::new();
    v.push(0x1b);
    v.push(0x5b);
    push_dec(&mut v, row as u64 + 1);
    v.push(0x3b);
    push_dec(&mut v, col as u64 + 1);
    v.push(0x52);
    assert(v@ =~= seq![0x1bu8, 0x5bu8] + dec_digits(row as nat + 1) + seq![0x3bu8] + dec_digits(
        col as nat + 1,
    ) + seq![0x52u8]);
    v
}

/// DECRQM status: 1 for a set mode, 2 for a reset one.
pub fn enabled_mode_code(enabled: bool) -> (r: u8)
    ensures
        r == (if enabled {
            1u8
        } else {
            2u8
        }),
{
    if enabled {
        1
    } else {
        2
    }
}

/// The DECRQM status of a DEC private mode: 1 set, 2 reset, 0 not recognised.
pub open spec fn dec_mode_code(
    mode: u16,
    focus_reporting: bool,
    alternate_screen: bool,
    mouse_mode: MouseProtocolMode,
    mouse_encoding: MouseProtocolEncoding,
    bracketed_paste: bool,
    alternate_scroll: bool,
) -> nat {
    let code = |b: bool|
        if b {
            1nat
        } else {
            2nat
        };
    if mode == 1000 {
        code(!(mouse_mode is Disabled))
    } else if mode == 1002 {
        code(mouse_mode is ButtonMotion || mouse_mode is AnyMotion)
    } else if mode == 1003 {
        code(mouse_mode is AnyMotion)
    } else if mode == 1004 {
        code(focus_reporting)
    } else if mode == 1006 {
        code(mouse_encoding is Sgr)
    } else if mode == 1007 {
        code(alternate_scroll)
    } else if mode == 1049 {
        code(alternate_screen)
    } else if mode == 2004 {
        code(bracketed_paste)
    } else {
        0
    }
}

/// The DECRQM answer `CSI ? mode ; status $ y` for a DEC private mode.
pub fn dec_mode_response(
    mode: u16,
    focus_reporting: bool,
    alternate_screen: bool,
    mouse_protocol_mode: &MouseProtocolMode,
    mouse_protocol_encoding: &MouseProtocolEncoding,
    bracketed_paste: bool,
    alternate_scroll: bool,
) -> (r: Vec<u8>)
    ensures
        r@ == seq![0x1bu8, 0x5bu8, 0x3fu8] + dec_digits(mode as nat) + seq![0x3bu8] + dec_digits(
            dec_mode_code(
                mode,
                focus_reporting,
                alternate_screen,
                *mouse_protocol_mode,
                *mouse_protocol_encoding,
                bracketed_paste,
                alternate_scroll,
            ),
        ) + seq![0x24u8, 0x79u8],
{
    let any_mouse = match mouse_protocol_mode {
        MouseProtocolMode::Disabled => false,
        _ => true,
    };
    let motion = match mouse_protocol_mode {
        MouseProtocolMode::ButtonMotion => true,
        MouseProtocolMode::AnyMotion => true,
        _ => false,
    };
    let any_motion = match mouse_protocol_mode {
        MouseProtocolMode::AnyMotion => true,
        _ => false,
    };
    let sgr = match mouse_protocol_encoding {
        MouseProtocolEncoding::Sgr => true,
        _ => false,
    };
    let code: u8 = if mode == 1000 {
        enabled_mode_code(any_mouse)
    } else if mode == 1002 {
        enabled_mode_code(motion)
    } else if mode == 1003 {
        enabled_mode_code(any_motion)
    } else if mode == 1004 {
        enabled_mode_code(focus_reporting)
    } else if mode == 1006 {
        enabled_mode_code(sgr)
    } else if mode == 1007 {
        enabled_mode_code(alternate_scroll)
    } else if mode == 1049 {
        enabled_mode_code(alternate_screen)
    } else if mode == 2004 {
        enabled_mode_code(bracketed_paste)
    } else {
        0
    };
    let mut v: Vec<u8> = Vec::new();
    v.push(0x1b);
    v.push(0x5b);
    v.push(0x3f);
    push_dec(&mut v, mode as u64);
    v.push(0x3b);
    push_dec(&mut v, code as u64);
    v.push(0x24);
    v.push(0x79);
    assert(v@ =~= seq![0x1bu8, 0x5bu8, 0x3fu8] + dec_digits(mode as nat) + seq![0x3bu8]
        + dec_digits(code as nat) + seq![0x24u8, 0x79u8]);
    v
}

/// DECRQM reports the mouse modes as the mouse encoder applies them: mode
/// 1000 is set (1) exactly when button presses are reported, 1002 when
/// drags are, 1003 when motion without a button is, 1006 when reports use the
/// SGR encoding; mode 1000 is set in every mouse mode but `Disabled`, 1002 in
/// `ButtonMotion` and `AnyMotion`, 1003 in `AnyMotion` alone. Focus
/// reporting (1004), alternate scroll (1007), the alternate screen (1049) and
/// bracketed paste (2004) are reported as they are; any other mode is not
/// recognised (0).
pub proof fn lemma_dec_mode_status(
    mode: u16,
    focus: bool,
    alt_screen: bool,
    mm: MouseProtocolMode,
    enc: MouseProtocolEncoding,
    paste: bool,
    alt_scroll: bool,
)
    ensures
        (dec_mode_code(1000, focus, alt_screen, mm, enc, paste, alt_scroll) == 1) == !mode_filters(
            mm,
            MouseEventKind::Down(MouseButton::Left),
        ),
        (dec_mode_code(1002, focus, alt_screen, mm, enc, paste, alt_scroll) == 1) == !mode_filters(
            mm,
            MouseEventKind::Drag(MouseButton::Left),
        ),
        (dec_mode_code(1003, focus, alt_screen, mm, enc, paste, alt_scroll) == 1) == !mode_filters(
            mm,
            MouseEventKind::Moved,
        ),
        dec_mode_code(1000, focus, alt_screen, mm, enc, paste, alt_scroll) == (match mm {
            MouseProtocolMode::Disabled => 2nat,
            _ => 1nat,
        }),
        dec_mode_code(1002, focus, alt_screen, mm, enc, paste, alt_scroll) == (match mm {
            MouseProtocolMode::ButtonMotion | MouseProtocolMode::AnyMotion => 1nat,
            _ => 2nat,
        }),
        dec_mode_code(1003, focus, alt_screen, mm, enc, paste, alt_scroll) == (match mm {
            MouseProtocolMode::AnyMotion => 1nat,
            _ => 2nat,
        }),
        dec_mode_code(1006, focus, alt_screen, mm, enc, paste, alt_scroll) == (match enc {
            MouseProtocolEncoding::Sgr => 1nat,
            _ => 2nat,
        }),
        dec_mode_code(1004, focus, alt_screen, mm, enc, paste, alt_scroll) == (if focus { 1nat } else { 2nat }),
        dec_mode_code(1007, focus, alt_screen, mm, enc, paste, alt_scroll) == (if alt_scroll { 1nat } else { 2nat }),
        dec_mode_code(1049, focus, alt_screen, mm, enc, paste, alt_scroll) == (if alt_screen { 1nat } else { 2nat }),
        dec_mode_code(2004, focus, alt_screen, mm, enc, paste, alt_scroll) == (if paste { 1nat } else { 2nat }),
        mode != 1000 && mode != 1002 && mode != 1003 && mode != 1004 && mode != 1006 && mode != 1007 && mode
            != 1049 && mode != 2004 ==> dec_mode_code(mode, focus, alt_screen, mm, enc, paste, alt_scroll) == 0,
{
}

/// The X10 button number of a mouse event: 0, 1, 2 for the left, middle and
/// right buttons, plus 32 for a drag; 35 for motion without a button; 64 to
/// 67 for the wheel (up, down, left, right).
pub open spec fn x10_button(kind: MouseEventKind) -> nat {
    let b = |btn: MouseButton|
        match btn {
            MouseButton::Left => 0nat,
            MouseButton::Middle => 1nat,
            MouseButton::Right => 2nat,
        };
    match kind {
        MouseEventKind::Down(btn) => b(btn),
        MouseEventKind::Up(btn) => b(btn),
        MouseEventKind::Drag(btn) => b(btn) + 32,
        MouseEventKind::Moved => 35,
        MouseEventKind::ScrollUp => 64,
        MouseEventKind::ScrollDown => 65,
        MouseEventKind::ScrollLeft => 66,
        MouseEventKind::ScrollRight => 67,
    }
}

/// The SGR report `ESC [ < code ; col ; row` followed by `last`.
pub open spec fn sgr_report(code: nat, col: int, row: int, last: u8) -> Seq<u8> {
    seq![0x1bu8, 0x5bu8, 0x3cu8] + dec_digits(code) + seq![0x3bu8] + dec_digits((col + 1) as nat) + seq![0x3bu8]
        + dec_digits((row + 1) as nat) + seq![last]
}

/// A coordinate in the default mouse encoding is its low byte plus 33 (one
/// based, offset by 32), held at 255.
pub proof fn lemma_default_coordinate(c: int)
    requires
        0 <= c,
    ensures
        default_coord(c) == (if c % 256 < 223 { (c % 256 + 33) as u8 } else { 255u8 }),
        c < 223 ==> default_coord(c) == (c + 33) as u8,
{
}

/// What the application receives for a mouse event inside the terminal area
/// while it asked for mouse reports, with `code` its X10 button number plus
/// Shift 4, Alt 8, Ctrl 16, and `col`, `row` its cell in the area (zero
/// based):
/// - a button release is dropped in `Press` mode; otherwise it is reported
///   as SGR `ESC [ < code ; col+1 ; row+1 m` (lowercase `m`), or in the
///   default encoding as `ESC [ M` with button byte 35 (32 + 3, "released");
/// - a press or a wheel step is reported as SGR `... M` (uppercase), or as
///   `ESC [ M` with button byte `32 + code`;
/// - motion is dropped unless the mode asks for it (drags from
///   `ButtonMotion`, any motion in `AnyMotion`).
pub proof fn lemma_mouse_reports(mouse: MouseEvent, modes: TerminalModes, area: Rect)
    requires
        !(modes.mouse_protocol_mode is Disabled),
        area.x <= mouse.column < area.x + area.width,
        area.y <= mouse.row < area.y + area.height,
    ensures
        ({
            let col = mouse.column - area.x;
            let row = mouse.row - area.y;
            let m = mouse.modifiers;
            let code = x10_button(mouse.kind) + (if m.shift { 4nat } else { 0nat }) + (if m.alt { 8nat } else { 0nat })
                + (if m.control { 16nat } else { 0nat });
            let sgr = modes.mouse_protocol_encoding is Sgr;
            let r = mouse_spec(mouse, modes, area);
            &&& mouse.kind is Up ==> r == if modes.mouse_protocol_mode is Press {
                Seq::<u8>::empty()
            } else if sgr {
                sgr_report(code, col, row, 0x6du8)
            } else {
                seq![0x1bu8, 0x5bu8, 0x4du8, 35u8, default_coord(col), default_coord(row)]
            }
            &&& (mouse.kind is Down || mouse.kind is ScrollUp || mouse.kind is ScrollDown || mouse.kind is ScrollLeft
                || mouse.kind is ScrollRight) ==> r == if sgr {
                sgr_report(code, col, row, 0x4du8)
            } else {
                seq![0x1bu8, 0x5bu8, 0x4du8, (code + 32) as u8, default_coord(col), default_coord(row)]
            }
            &&& mouse.kind is Drag ==> (r.len() == 0 <==> (modes.mouse_protocol_mode is Press
                || modes.mouse_protocol_mode is PressRelease))
            &&& mouse.kind is Moved ==> (r.len() == 0 <==> !(modes.mouse_protocol_mode is AnyMotion))
        }),
{
    let col = mouse.column - area.x;
    let row = mouse.row - area.y;
    assert(sgr_report(mouse_code_with_mods(mouse.kind, mouse.modifiers), col, row, 0x6du8).len() > 0);
    assert(sgr_report(mouse_code_with_mods(mouse.kind, mouse.modifiers), col, row, 0x4du8).len() > 0);
}

/// Whether one of the `;`-separated decimal fields of `p`, from position `i`,
/// has the value `mode`; `acc` and `nonempty` describe the field read so far.
pub open spec fn field_hits(p: Seq<u8>, i: int, acc: nat, nonempty: bool, mode: nat) -> bool
    decreases p.len() - i,
{
    if i < 0 || i >= p.len() {
        nonempty && acc == mode
    } else if p[i] == 0x3b {
        (nonempty && acc == mode) || field_hits(p, i + 1, 0, false, mode)
    } else {
        field_hits(p, i + 1, (acc * 10 + (p[i] - 48)) as nat, true, mode)
    }
}

pub open spec fn is_param_byte(b: u8) -> bool {
    is_digit(b) || b == 0x3b
}

/// The first position at or after `j` that is not a digit or `;`.
pub open spec fn params_end(d: Seq<u8>, j: int) -> int
    decreases d.len() - j,
{
    if j < 0 {
        0
    } else if j >= d.len() {
        j
    } else if is_param_byte(d[j]) {
        params_end(d, j + 1)
    } else {
        j
    }
}

pub proof fn lemma_params_end(d: Seq<u8>, j: int)
    requires
        0 <= j <= d.len(),
    ensures
        j <= params_end(d, j) <= d.len(),
        forall|t: int| j <= t < params_end(d, j) ==> is_param_byte(d[t]),
        params_end(d, j) < d.len() ==> !is_param_byte(d[params_end(d, j)]),
    decreases d.len() - j,
{
    if j < d.len() && is_param_byte(d[j]) {
        lemma_params_end(d, j + 1);
    }
}

/// Scans output from position `i` for DECSET/DECRST sequences (`CSI ? ... h/l`)
/// and returns the last state set for focus reporting (1004) and alternate
/// scroll (1007), starting from `focus` and `alt`.
pub open spec fn dec_scan(d: Seq<u8>, i: int, focus: Option<bool>, alt: Option<bool>) -> (
    Option<bool>,
    Option<bool>,
)
    decreases d.len() - i,
{
    if i < 0 || i + 3 >= d.len() {
        (focus, alt)
    } else if !(d[i] == 0x1b && d[i + 1] == 0x5b && d[i + 2] == 0x3f) {
        dec_scan(d, i + 1, focus, alt)
    } else {
        let s = i + 3;
        proof {
            lemma_params_end(d, s);
        }
        let j = params_end(d, s);
        if j >= d.len() {
            (focus, alt)
        } else if d[j] == 0x68 || d[j] == 0x6c {
            let en = d[j] == 0x68;
            let p = d.subrange(s, j);
            dec_scan(
                d,
                j + 1,
                if field_hits(p, 0, 0, false, 1004) {
                    Some(en)
                } else {
                    focus
                },
                if field_hits(p, 0, 0, false, 1007) {
                    Some(en)
                } else {
                    alt
                },
            )
        } else {
            dec_scan(d, s, focus, alt)
        }
    }
}

/// Whether one of the `;`-separated fields of `p` parses as the number `mode`.
fn params_contain_mode(p: &[u8], mode: u32) -> (r: bool)
    requires
        mode <= 65535,
        forall|t: int| 0 <= t < p@.len() ==> is_param_byte(p@[t]),
    ensures
        r == field_hits(p@, 0, 0, false, mode as nat),
{
    let mut i: usize = 0;
    let mut acc: u32 = 0;
    let ghost mut acc_spec: nat = 0;
    let mut nonempty = false;
    let mut found = false;
    while i < p.len()
        invariant
            i <= p.len(),
            mode <= 65535,
            forall|t: int| 0 <= t < p@.len() ==> is_param_byte(p@[t]),
            acc == (if acc_spec > 65535 {
                65536
            } else {
                acc_spec
            }),
            field_hits(p@, 0, 0, false, mode as nat) == (found || field_hits(
                p@,
                i as int,
                acc_spec,
                nonempty,
                mode as nat,
            )),
        decreases p.len() - i,
    {
        if p[i] == 0x3b {
            if nonempty && acc == mode {
                found = true;
            }
            acc = 0;
            proof {
                acc_spec = 0;
            }
            nonempty = false;
        } else {
            let digit = (p[i] - 48) as u32;
            proof {
                let next: nat = (acc_spec * 10 + digit) as nat;
                if acc_spec > 65535 {
                    assert(next > 65535) by (nonlinear_arith)
                        requires
                            acc_spec > 65535,
                            next == acc_spec * 10 + digit,
                    ;
                }
                acc_spec = next;
            }
            acc = if acc > 6553 {
                65536
            } else {
                let n = acc * 10 + digit;
                if n > 65535 {
                    65536
                } else {
                    n
                }
            };
            nonempty = true;
        }
        i = i + 1;
    }
    found || (nonempty && acc == mode)
}

/// The states that a stretch of output leaves set for focus reporting
/// (DEC mode 1004) and alternate scroll (DEC mode 1007); `None` for a mode the
/// output does not set or reset.
pub fn dec_mode_updates(data: &[u8]) -> (r: (Option<bool>, Option<bool>))
    ensures
        r == dec_scan(data@, 0, None, None),
{
    let len = data.len();
    let mut i: usize = 0;
    let mut focus: Option<bool> = None;
    let mut alt: Option<bool> = None;
    while i < len && len - i > 3
        invariant
            len == data.len(),
            i <= len,
            dec_scan(data@, 0, None, None) == dec_scan(data@, i as int, focus, alt),
        decreases len - i,
    {
        if !(data[i] == 0x1b && data[i + 1] == 0x5b && data[i + 2] == 0x3f) {
            i = i + 1;
            continue;
        }
        let s = i + 3;
        proof {
            lemma_params_end(data@, s as int);
        }
        let mut j = s;
        while j < len && ((48 <= data[j] && data[j] <= 57) || data[j] == 0x3b)
            invariant
                s <= j <= len,
                len == data.len(),
                j <= params_end(data@, s as int),
                params_end(data@, j as int) == params_end(data@, s as int),
            decreases len - j,
        {
            proof {
                lemma_params_end(data@, j as int + 1);
            }
            j = j + 1;
        }
        if j >= len {
            return (focus, alt);
        }
        if data[j] == 0x68 || data[j] == 0x6c {
            let en = data[j] == 0x68;
            let params = slice_range(data, s, j);
            if params_contain_mode(params, 1004) {
                focus = Some(en);
            }
            if params_contain_mode(params, 1007) {
                alt = Some(en);
            }
            i = j + 1;
        } else {
            i = s;
        }
    }
    (focus, alt)
}

/// The bytes `data[from..to]`.
pub fn slice_range(data: &[u8], from: usize, to: usize) -> (r: &[u8])
    requires
        from <= to <= data.len(),
    ensures
        r@ == data@.subrange(from as int, to as int),
{
    vstd::slice::slice_subrange(data, from, to)
}

/// At most this many trailing bytes of output are kept for sequences split
/// across reads.
pub const DEC_MODE_TAIL: usize = 64;

/// The last `min(len, 64)` bytes of `b`.
pub open spec fn keep_tail(b: Seq<u8>) -> Seq<u8> {
    if b.len() > 64 {
        b.subrange(b.len() - 64, b.len() as int)
    } else {
        b
    }
}

/// Mode changes split across reads are still seen: after a fresh detector
/// has read `a` (at most 64 bytes), what it reports for the next read `b` is
/// what it would report for `a` and `b` read at once.
pub proof fn lemma_split_read_seen(a: Seq<u8>, b: Seq<u8>)
    requires
        a.len() <= 64,
    ensures
        dec_scan(keep_tail(Seq::<u8>::empty() + a) + b, 0, None, None) == dec_scan(a + b, 0, None, None),
{
    assert(Seq::<u8>::empty() + a =~= a);
}

/// Tracks the DEC private modes that must be mirrored outside the screen
/// parser (focus reporting, alternate scroll), keeping a short tail of the
/// output so that sequences split across reads are still seen.
pub struct DecModeDetector {
    pub tail: Vec<u8>,
}

impl DecModeDetector {
    pub fn new() -> (r: Self)
        ensures
            r.tail@ == Seq::<u8>::empty(),
    {
        DecModeDetector { tail: Vec::new() }
    }

    /// Scans the kept tail followed by `data`; returns the mode states it sets
    /// and keeps the last 64 bytes of the two as the new tail.
    pub fn update(&mut self, data: &[u8]) -> (r: (Option<bool>, Option<bool>))
        ensures
            r == dec_scan(old(self).tail@ + data@, 0, None, None),
            final(self).tail@ == keep_tail(old(self).tail@ + data@),
    {
        let mut buf: Vec<u8> = Vec::new();
        push_all(&mut buf, self.tail.as_slice());
        push_all(&mut buf, data);
        let r = dec_mode_updates(buf.as_slice());
        let keep = if buf.len() < DEC_MODE_TAIL {
            buf.len()
        } else {
            DEC_MODE_TAIL
        };
        let mut tail: Vec<u8> = Vec::new();
        push_all(&mut tail, slice_range(buf.as_slice(), buf.len() - keep, buf.len()));
        proof {
            assert(buf@ =~= old(self).tail@ + data@);
            assert(tail@ =~= keep_tail(buf@));
        }
        self.tail = tail;
        r
    }

    /// Scans new output and records the focus reporting and alternate scroll
    /// states it sets.
    pub fn process(&mut self, data: &[u8], focus_reporting: &AtomicBool, alternate_scroll: &AtomicBool)
        ensures
            final(self).tail@ == keep_tail(old(self).tail@ + data@),
    {
        let (focus, alt) = self.update(data);
        if let Some(v) = focus {
            store_bool(focus_reporting, v);
        }
        if let Some(v) = alt {
            store_bool(alternate_scroll, v);
        }
    }
}

} // verus!
