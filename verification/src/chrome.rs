//! The text of the terminal UI's header and footer lines, as segments with a
//! tone each; drawing them in colour is left to the caller.

use vstd::prelude::*;

use crate::keymap::ModeKind;
use crate::state::Focus;
use crate::text::to_owned_string;

verus! {

/// How a segment is drawn.
#[derive(Clone, Copy, Debug, PartialEq, Eq, Structural)]
pub enum Tone {
    /// The app's name.
    Brand,
    /// Secondary text: the version, key descriptions.
    Muted,
    /// An available update.
    News,
    /// A status message.
    Status,
    /// A key name.
    Key,
    /// A key that resets something.
    DangerKey,
    /// The update key.
    NewsKey,
    /// A separator between hints.
    Separator,
}

/// A piece of a line.
pub struct Segment {
    pub text: String,
    pub tone: Tone,
}

/// The view of a list of segments.
pub open spec fn segments_view(v: Seq<Segment>) -> Seq<(Seq<char>, Tone)> {
    v.map_values(|s: Segment| (s.text@, s.tone))
}

fn push_segment(v: &mut Vec<Segment>, text: &str, tone: Tone)
    ensures
        segments_view(final(v)@) == segments_view(old(v)@).push((text@, tone)),
{
    let ghost before = v@;
    v.push(Segment { text: to_owned_string(text), tone });
    proof {
        assert(segments_view(v@) =~= segments_view(before).push((text@, tone)));
    }
}

/// The header: the app's name and version, and an available update.
pub open spec fn header_spec(version: Seq<char>, update: Option<Seq<char>>) -> Seq<(Seq<char>, Tone)> {
    let base = seq![(" beehive"@, Tone::Brand), (" v"@ + version, Tone::Muted)];
    match update {
        Some(u) => base.push(("  v"@ + u + " available — 'u' to update"@, Tone::News)),
        None => base,
    }
}

/// The header line for this build's `version` and an available update.
pub fn header_segments(version: &str, update: Option<&str>) -> (r: Vec<Segment>)
    ensures
        segments_view(r@) == header_spec(
            version@,
            match update {
                Some(u) => Some(u@),
                None => None,
            },
        ),
{
    let mut r: Vec<Segment> = Vec::new();
    push_segment(&mut r, " beehive", Tone::Brand);
    let mut v = String::new();
    v.append(" v");
    v.append(version);
    push_segment(&mut r, v.as_str(), Tone::Muted);
    match update {
        Some(u) => {
            let mut t = String::new();
            t.append("  v");
            t.append(u);
            t.append(" available — 'u' to update");
            push_segment(&mut r, t.as_str(), Tone::News);
        },
        None => {},
    }
    proof {
        assert(segments_view(r@) =~= header_spec(
            version@,
            match update {
                Some(u) => Some(u@),
                None => None,
            },
        ));
    }
    r
}

/// A key hint: the key, then what it does.
pub open spec fn hint(key: Seq<char>, label: Seq<char>) -> Seq<(Seq<char>, Tone)> {
    seq![(key, Tone::Key), (label, Tone::Muted)]
}

/// A separator.
pub open spec fn bar() -> Seq<(Seq<char>, Tone)> {
    seq![("│"@, Tone::Separator)]
}

/// The footer: the status message when there is one, else the key hints of
/// the current mode and focus.
pub open spec fn footer_spec(
    status: Option<Seq<char>>,
    mode: ModeKind,
    focus: Focus,
    has_items: bool,
    has_terminal: bool,
    has_update: bool,
) -> Seq<(Seq<char>, Tone)> {
    match status {
        Some(msg) => seq![(" "@ + msg, Tone::Status)],
        None => if mode == ModeKind::Help {
            hint(" Esc"@, " close"@)
        } else if mode == ModeKind::Settings {
            hint(" Esc"@, " close "@) + bar() + seq![(" R"@, Tone::DangerKey), (" reset config"@, Tone::Muted)]
        } else if mode == ModeKind::BranchPicker {
            hint(" ↑↓"@, " navigate "@) + bar() + hint(" enter"@, " select "@) + bar() + hint(
                " type"@,
                " to filter "@,
            ) + bar() + hint(" Esc"@, " cancel"@)
        } else if focus == Focus::Terminal {
            hint(" Ctrl+Space"@, " sidebar"@)
        } else {
            hint(" enter"@, " open "@) + bar() + (if has_items {
                hint(" n"@, " new "@) + bar() + hint(" c"@, " copy "@) + bar()
            } else {
                Seq::empty()
            }) + hint(" a"@, " add "@) + bar() + hint(" d"@, " del "@) + bar() + hint(
                " s"@,
                " settings "@,
            ) + bar() + hint(" </>"@, " resize "@) + bar() + hint(" ?"@, " help "@) + bar() + hint(
                " q"@,
                " quit"@,
            ) + (if has_terminal {
                seq![(" │"@, Tone::Separator)] + hint(" C-Spc"@, " terminal"@)
            } else {
                Seq::empty()
            }) + (if has_update {
                seq![(" │"@, Tone::Separator), (" u"@, Tone::NewsKey), (" update"@, Tone::Muted)]
            } else {
                Seq::empty()
            })
        },
    }
}

fn push_hint(v: &mut Vec<Segment>, key: &str, label: &str)
    ensures
        segments_view(final(v)@) == segments_view(old(v)@) + hint(key@, label@),
{
    push_segment(v, key, Tone::Key);
    push_segment(v, label, Tone::Muted);
    assert(segments_view(v@) =~= segments_view(old(v)@) + hint(key@, label@));
}

fn push_bar(v: &mut Vec<Segment>)
    ensures
        segments_view(final(v)@) == segments_view(old(v)@) + bar(),
{
    push_segment(v, "│", Tone::Separator);
    assert(segments_view(v@) =~= segments_view(old(v)@) + bar());
}

/// The footer line: the status message when there is one, else the key
/// hints for the mode (help, settings and the branch picker have their
/// own), for the terminal pane, or for the sidebar (creating and copying
/// combs only when there are items, the terminal key only when a terminal is
/// open, the update key only when an update is available).
pub fn footer_segments(
    status: Option<&str>,
    mode: ModeKind,
    focus: Focus,
    has_items: bool,
    has_terminal: bool,
    has_update: bool,
) -> (r: Vec<Segment>)
    ensures
        segments_view(r@) == footer_spec(
            match status {
                Some(s) => Some(s@),
                None => None,
            },
            mode,
            focus,
            has_items,
            has_terminal,
            has_update,
        ),
{
    let mut r: Vec<Segment> = Vec::new();
    match status {
        Some(msg) => {
            let mut t = String::new();
            t.append(" ");
            t.append(msg);
            push_segment(&mut r, t.as_str(), Tone::Status);
            assert(segments_view(r@) =~= seq![(" "@ + msg@, Tone::Status)]);
            return r;
        },
        None => {},
    }
    if mode == ModeKind::Help {
        push_hint(&mut r, " Esc", " close");
    } else if mode == ModeKind::Settings {
        push_hint(&mut r, " Esc", " close ");
        push_bar(&mut r);
        push_segment(&mut r, " R", Tone::DangerKey);
        push_segment(&mut r, " reset config", Tone::Muted);
    } else if mode == ModeKind::BranchPicker {
        push_hint(&mut r, " ↑↓", " navigate ");
        push_bar(&mut r);
        push_hint(&mut r, " enter", " select ");
        push_bar(&mut r);
        push_hint(&mut r, " type", " to filter ");
        push_bar(&mut r);
        push_hint(&mut r, " Esc", " cancel");
    } else if focus == Focus::Terminal {
        push_hint(&mut r, " Ctrl+Space", " sidebar");
    } else {
        push_hint(&mut r, " enter", " open ");
        push_bar(&mut r);
        if has_items {
            push_hint(&mut r, " n", " new ");
            push_bar(&mut r);
            push_hint(&mut r, " c", " copy ");
            push_bar(&mut r);
        }
        push_hint(&mut r, " a", " add ");
        push_bar(&mut r);
        push_hint(&mut r, " d", " del ");
        push_bar(&mut r);
        push_hint(&mut r, " s", " settings ");
        push_bar(&mut r);
        push_hint(&mut r, " </>", " resize ");
        push_bar(&mut r);
        push_hint(&mut r, " ?", " help ");
        push_bar(&mut r);
        push_hint(&mut r, " q", " quit");
        if has_terminal {
            push_segment(&mut r, " │", Tone::Separator);
            push_hint(&mut r, " C-Spc", " terminal");
        }
        if has_update {
            push_segment(&mut r, " │", Tone::Separator);
            push_segment(&mut r, " u", Tone::NewsKey);
            push_segment(&mut r, " update", Tone::Muted);
        }
    }
    assert(segments_view(r@) =~= footer_spec(None, mode, focus, has_items, has_terminal, has_update));
    r
}

/// The sidebar's width on a screen `total` columns wide: the preferred width,
/// at most half the screen, at least 20.
pub fn sidebar_width_for(preferred: u16, total: u16) -> (r: u16)
    ensures
        r == (if (if preferred < total / 2 { preferred } else { total / 2 }) > 20 {
            if preferred < total / 2 { preferred } else { total / 2 }
        } else {
            20
        }),
{
    let w = if preferred < total / 2 {
        preferred
    } else {
        total / 2
    };
    if w > 20 {
        w
    } else {
        20
    }
}

} // verus!
