//! Where an input event goes: to the embedded terminal (encoded as bytes), to
//! a link under a click, to the UI's key bindings, or into the text of an
//! open prompt or picker.

use vstd::prelude::*;

use crate::keymap::{spec_is_focus_toggle, is_focus_toggle, ModeKind};
use crate::repo::chars_to_string;
use crate::state::Focus;
use crate::terminal::{
    event_spec, event_to_bytes, Event, MouseButton, MouseEventKind, MouseProtocolMode, Rect,
    TerminalModes,
};
use crate::text::str_chars;

verus! {

/// What to do with an input event.
pub enum EventRoute {
    /// A key release (reported by enhanced keyboards): dropped.
    Ignore,
    /// Ctrl+Space in the terminal pane: give the sidebar the focus.
    FocusSidebar,
    /// Write these bytes to the open terminal.
    Forward(Vec<u8>),
    /// A left click released in the terminal pane while the application does
    /// not take the mouse: open the URL under the cell at `row`, `col` of the
    /// terminal, or, when there is none, write `bytes` (if any).
    Click { row: u16, col: u16, bytes: Vec<u8> },
    /// A key for the UI's own bindings.
    UiKey,
    /// A paste into the open prompt or picker filter.
    PasteIntoMode,
    Nothing,
}

/// Where an event goes, in the mathematical view (bytes as a sequence).
pub enum RouteView {
    Ignore,
    FocusSidebar,
    Forward(Seq<u8>),
    Click { row: int, col: int, bytes: Seq<u8> },
    UiKey,
    PasteIntoMode,
    Nothing,
}

/// The view of a route.
pub open spec fn route_view(r: EventRoute) -> RouteView {
    match r {
        EventRoute::Ignore => RouteView::Ignore,
        EventRoute::FocusSidebar => RouteView::FocusSidebar,
        EventRoute::Forward(b) => RouteView::Forward(b@),
        EventRoute::Click { row, col, bytes } => RouteView::Click { row: row as int, col: col as int, bytes: bytes@ },
        EventRoute::UiKey => RouteView::UiKey,
        EventRoute::PasteIntoMode => RouteView::PasteIntoMode,
        EventRoute::Nothing => RouteView::Nothing,
    }
}

/// Forward non-empty bytes; nothing to do for none.
pub open spec fn forward_or_nothing(b: Seq<u8>) -> RouteView {
    if b.len() > 0 {
        RouteView::Forward(b)
    } else {
        RouteView::Nothing
    }
}

/// Where an event goes. With the terminal pane focused and no overlay open,
/// events go to the terminal (Ctrl+Space returns to the sidebar; a left
/// click on a cell may open a link); otherwise keys go to the UI's bindings
/// and pastes into an open prompt or picker.
pub open spec fn route_spec(
    event: Event,
    key_release: bool,
    focus: Focus,
    mode: ModeKind,
    terminal: Option<TerminalModes>,
    area: Rect,
) -> RouteView {
    if event is Key && key_release {
        RouteView::Ignore
    } else if focus == Focus::Terminal && mode == ModeKind::Normal {
        match event {
            Event::Key(key) => if spec_is_focus_toggle(key) {
                RouteView::FocusSidebar
            } else {
                match terminal {
                    Some(m) => forward_or_nothing(event_spec(event, m, area)),
                    None => RouteView::Nothing,
                }
            },
            Event::Mouse(mouse) => match terminal {
                Some(m) => {
                    let col = mouse.column - area.x;
                    let row = mouse.row - area.y;
                    if mouse.kind == MouseEventKind::Up(MouseButton::Left) && m.mouse_protocol_mode
                        == MouseProtocolMode::Disabled && 0 <= col < area.width && 0 <= row < area.height {
                        RouteView::Click { row, col, bytes: event_spec(event, m, area) }
                    } else {
                        forward_or_nothing(event_spec(event, m, area))
                    }
                },
                None => RouteView::Nothing,
            },
            Event::Resize(_, _) => RouteView::Nothing,
            _ => match terminal {
                Some(m) => forward_or_nothing(event_spec(event, m, area)),
                None => RouteView::Nothing,
            },
        }
    } else {
        match event {
            Event::Key(_) => RouteView::UiKey,
            Event::Paste(_) => if mode == ModeKind::Input || mode == ModeKind::BranchPicker || mode
                == ModeKind::CombFinder {
                RouteView::PasteIntoMode
            } else {
                RouteView::Nothing
            },
            _ => RouteView::Nothing,
        }
    }
}

fn forward(bytes: Vec<u8>) -> (r: EventRoute)
    ensures
        route_view(r) == forward_or_nothing(bytes@),
{
    if bytes.len() > 0 {
        EventRoute::Forward(bytes)
    } else {
        EventRoute::Nothing
    }
}

/// Decides where an input event goes; `key_release` says whether a key event
/// reports a release, `terminal` holds the modes of the open terminal, if
/// one is open, and `area` is the terminal pane.
pub fn route_event(
    event: &Event,
    key_release: bool,
    focus: Focus,
    mode: ModeKind,
    terminal: Option<&TerminalModes>,
    area: &Rect,
) -> (r: EventRoute)
    ensures
        route_view(r) == route_spec(
            *event,
            key_release,
            focus,
            mode,
            match terminal {
                Some(m) => Some(*m),
                None => None,
            },
            *area,
        ),
{
    let is_key = match event {
        Event::Key(_) => true,
        _ => false,
    };
    if is_key && key_release {
        return EventRoute::Ignore;
    }
    if focus == Focus::Terminal && mode == ModeKind::Normal {
        match event {
            Event::Key(key) => {
                if is_focus_toggle(key) {
                    EventRoute::FocusSidebar
                } else {
                    match terminal {
                        Some(m) => forward(event_to_bytes(event, m, area)),
                        None => EventRoute::Nothing,
                    }
                }
            },
            Event::Mouse(mouse) => match terminal {
                Some(m) => {
                    let bytes = event_to_bytes(event, m, area);
                    let left_up = match mouse.kind {
                        MouseEventKind::Up(MouseButton::Left) => true,
                        _ => false,
                    };
                    let no_mouse = match m.mouse_protocol_mode {
                        MouseProtocolMode::Disabled => true,
                        _ => false,
                    };
                    let inside = mouse.column >= area.x && mouse.row >= area.y && mouse.column
                        - area.x < area.width && mouse.row - area.y < area.height;
                    if left_up && no_mouse && inside {
                        EventRoute::Click { row: mouse.row - area.y, col: mouse.column - area.x, bytes }
                    } else {
                        forward(bytes)
                    }
                },
                None => EventRoute::Nothing,
            },
            Event::Resize(_, _) => EventRoute::Nothing,
            _ => match terminal {
                Some(m) => forward(event_to_bytes(event, m, area)),
                None => EventRoute::Nothing,
            },
        }
    } else {
        match event {
            Event::Key(_) => EventRoute::UiKey,
            Event::Paste(_) => {
                if mode == ModeKind::Input || mode == ModeKind::BranchPicker || mode
                    == ModeKind::CombFinder {
                    EventRoute::PasteIntoMode
                } else {
                    EventRoute::Nothing
                }
            },
            _ => EventRoute::Nothing,
        }
    }
}

/// `s` with `t` inserted before position `k` (at the end when `k` is past it).
pub open spec fn insert_str_at(s: Seq<char>, k: int, t: Seq<char>) -> Seq<char> {
    let p = if k < s.len() {
        k
    } else {
        s.len() as int
    };
    s.subrange(0, p) + t + s.subrange(p, s.len() as int)
}

/// Pastes `text` at the cursor of a prompt's value or a picker's filter; the
/// cursor moves past the pasted characters.
pub fn paste_text(value: &mut String, cursor: &mut usize, text: &str)
    requires
        *old(cursor) + text@.len() <= usize::MAX,
    ensures
        final(value)@ == insert_str_at(old(value)@, *old(cursor) as int, text@),
        *final(cursor) == *old(cursor) + text@.len(),
{
    let v = str_chars(value.as_str());
    let t = str_chars(text);
    let p = if *cursor < v.len() {
        *cursor
    } else {
        v.len()
    };
    let mut w: Vec<char> = Vec::new();
    let mut i: usize = 0;
    while i < p
        invariant
            p <= v.len(),
            i <= p,
            w@ == v@.subrange(0, i as int),
        decreases p - i,
    {
        w.push(v[i]);
        assert(w@ =~= v@.subrange(0, i + 1));
        i = i + 1;
    }
    let mut j: usize = 0;
    while j < t.len()
        invariant
            j <= t.len(),
            p <= v.len(),
            w@ == v@.subrange(0, p as int) + t@.subrange(0, j as int),
        decreases t.len() - j,
    {
        w.push(t[j]);
        assert(w@ =~= v@.subrange(0, p as int) + t@.subrange(0, j + 1));
        j = j + 1;
    }
    assert(t@.subrange(0, t@.len() as int) =~= t@);
    let ghost head = w@;
    let mut k = p;
    while k < v.len()
        invariant
            p <= k <= v.len(),
            w@ == head + v@.subrange(p as int, k as int),
        decreases v.len() - k,
    {
        w.push(v[k]);
        assert(w@ =~= head + v@.subrange(p as int, k + 1));
        k = k + 1;
    }
    *value = chars_to_string(&w);
    *cursor = *cursor + t.len();
}

} // verus!
