//! The terminal queries that an embedded terminal's output may hold
//! (`CSI ? u`, `CSI ? Pm $ p`, `CSI 6 n`), what each asks, and the answers
//! written back to the application; a query split across reads is kept until
//! it is complete.

use vstd::prelude::*;

use std::sync::atomic::AtomicBool;

use crate::atomics::load_bool;
use crate::keyboard::{digits_end, is_digit, lemma_digits_end, query_response, skip_digits};
use crate::terminal::{
    csi_final_at, csi_len_spec, cursor_position_response, dec_mode_code, dec_mode_response, keep_tail,
    scan_csi_sequence_len, slice_range, terminal_query_needs_more_bytes, MouseProtocolEncoding,
    MouseProtocolMode, TerminalModes,
};
use crate::screen::ScreenSnapshot;
use crate::text::{dec_digits, push_all};

verus! {

#[verifier::external_type_specification]
#[verifier::external_body]
pub struct ExParser(vt100::Parser);

/// What a terminal query found in the output asks.
pub enum QueryKind {
    /// `CSI ? u`: the keyboard protocol flags.
    KeyboardFlags,
    /// `CSI ? Pm $ p`: the state of a DEC private mode.
    DecMode(u16),
    /// `CSI 6 n`: the cursor position.
    CursorPosition,
    /// A complete CSI sequence that asks nothing.
    Other,
}

/// The terminal state that the answers read: the cursor position (zero
/// based) and the modes the application set.
pub struct QueryState {
    pub cursor_row: u16,
    pub cursor_col: u16,
    pub focus_reporting: bool,
    pub alternate_screen: bool,
    pub mouse_protocol_mode: MouseProtocolMode,
    pub mouse_protocol_encoding: MouseProtocolEncoding,
    pub bracketed_paste: bool,
    pub alternate_scroll: bool,
}

/// The value of the decimal digits in `d[j..k]`.
pub open spec fn digits_value(d: Seq<u8>, j: int, k: int) -> nat
    decreases k - j,
{
    if k <= j || j < 0 || k > d.len() {
        0
    } else {
        digits_value(d, j, k - 1) * 10 + (d[k - 1] - 48) as nat
    }
}

/// The digits in `d[j..k]` read as a `u16`: none when there are none or the
/// value does not fit.
pub open spec fn param_of(d: Seq<u8>, j: int, k: int) -> Option<u16> {
    if j < k && digits_value(d, j, k) <= 65535 {
        Some(digits_value(d, j, k) as u16)
    } else {
        None
    }
}

/// A complete CSI sequence at the start of `d` that asks nothing.
pub open spec fn other_query(d: Seq<u8>) -> Option<(int, QueryKind)> {
    match csi_len_spec(d) {
        Some(n) => Some((n, QueryKind::Other)),
        None => None,
    }
}

/// The query that the bytes at an escape (`d[0]`) start with: its length and
/// what it asks; `None` when they start no complete CSI sequence.
pub open spec fn query_match(d: Seq<u8>) -> Option<(int, QueryKind)> {
    if d.len() < 3 || d[1] != 0x5b {
        None
    } else if d[2] == 0x3f {
        if d.len() < 4 {
            None
        } else if d[3] == 0x75 {
            Some((4, QueryKind::KeyboardFlags))
        } else {
            let i = digits_end(d, 3);
            if i >= d.len() {
                None
            } else if d[i] == 0x24 {
                if i + 1 >= d.len() {
                    None
                } else if d[i + 1] == 0x70 {
                    Some(
                        (
                            i + 2,
                            QueryKind::DecMode(
                                match param_of(d, 3, i) {
                                    Some(p) => p,
                                    None => 0u16,
                                },
                            ),
                        ),
                    )
                } else {
                    other_query(d)
                }
            } else {
                other_query(d)
            }
        }
    } else if d[2] == 0x3e {
        other_query(d)
    } else {
        let i = digits_end(d, 2);
        if i >= d.len() {
            None
        } else if d[i] == 0x6e && param_of(d, 2, i) == Some(6u16) {
            Some((i + 1, QueryKind::CursorPosition))
        } else {
            other_query(d)
        }
    }
}

/// The answer to a query, from the terminal state `st`; none for a sequence
/// that asks nothing.
pub open spec fn answer(kind: QueryKind, outer_keyboard_enhanced: bool, st: QueryState) -> Option<Seq<u8>> {
    match kind {
        QueryKind::KeyboardFlags => Some(
            seq![0x1bu8, 0x5bu8, 0x3fu8, if outer_keyboard_enhanced {
                0x33u8
            } else {
                0x31u8
            }, 0x75u8],
        ),
        QueryKind::DecMode(m) => Some(
            seq![0x1bu8, 0x5bu8, 0x3fu8] + dec_digits(m as nat) + seq![0x3bu8] + dec_digits(
                dec_mode_code(
                    m,
                    st.focus_reporting,
                    st.alternate_screen,
                    st.mouse_protocol_mode,
                    st.mouse_protocol_encoding,
                    st.bracketed_paste,
                    st.alternate_scroll,
                ),
            ) + seq![0x24u8, 0x79u8],
        ),
        QueryKind::CursorPosition => Some(
            seq![0x1bu8, 0x5bu8] + dec_digits(st.cursor_row as nat + 1) + seq![0x3bu8] + dec_digits(
                st.cursor_col as nat + 1,
            ) + seq![0x52u8],
        ),
        QueryKind::Other => None,
    }
}

pub open spec fn opt_bytes(o: Option<Vec<u8>>) -> Option<Seq<u8>> {
    match o {
        Some(v) => Some(v@),
        None => None,
    }
}

proof fn lemma_csi_final_at(d: Seq<u8>, i: int)
    requires
        0 <= i,
    ensures
        csi_final_at(d, i) matches Some(n) ==> i < n <= d.len(),
    decreases d.len() - i,
{
    if i < d.len() && !(0x40 <= d[i] && d[i] <= 0x7e) {
        lemma_csi_final_at(d, i + 1);
    }
}

/// A query that is found is at least one byte long and lies within the bytes.
pub proof fn lemma_query_match_len(d: Seq<u8>)
    ensures
        query_match(d) matches Some((n, _)) ==> 0 < n <= d.len(),
{
    lemma_csi_final_at(d, 2);
    if d.len() >= 4 {
        lemma_digits_end(d, 3);
    }
    if d.len() >= 3 {
        lemma_digits_end(d, 2);
    }
}

proof fn lemma_digits_end_prefix(d: Seq<u8>, m: int, j: int)
    requires
        0 <= j <= m <= d.len(),
    ensures
        digits_end(d.subrange(0, m), j) == (if digits_end(d, j) < m {
            digits_end(d, j)
        } else {
            m
        }),
    decreases m - j,
{
    lemma_digits_end(d, j);
    if j < m && is_digit(d[j]) {
        lemma_digits_end_prefix(d, m, j + 1);
    }
}

proof fn lemma_csi_final_at_prefix(d: Seq<u8>, m: int, i: int)
    requires
        0 <= i <= m <= d.len(),
    ensures
        csi_final_at(d.subrange(0, m), i) == (match csi_final_at(d, i) {
            Some(n) => if n <= m {
                Some(n)
            } else {
                None
            },
            None => None,
        }),
    decreases m - i,
{
    lemma_csi_final_at(d, i);
    if i < m && !(0x40 <= d[i] && d[i] <= 0x7e) {
        lemma_csi_final_at_prefix(d, m, i + 1);
    }
}

proof fn lemma_digits_value_prefix(d: Seq<u8>, m: int, j: int, k: int)
    requires
        0 <= j,
        k <= m <= d.len(),
    ensures
        digits_value(d.subrange(0, m), j, k) == digits_value(d, j, k),
    decreases k - j,
{
    if j < k {
        lemma_digits_value_prefix(d, m, j, k - 1);
    }
}

/// A proper prefix of a complete sequence starts none.
proof fn lemma_query_prefix_unmatched(d: Seq<u8>, m: int)
    requires
        query_match(d) matches Some((n, _)) && 0 < m < n,
    ensures
        query_match(d.subrange(0, m)) is None,
{
    lemma_query_match_len(d);
    let p = d.subrange(0, m);
    if m >= 3 {
        lemma_csi_final_at_prefix(d, m, 2);
        if d[2] == 0x3f && m >= 4 {
            lemma_digits_end(d, 3);
            lemma_digits_end_prefix(d, m, 3);
        }
        if d[2] != 0x3f && d[2] != 0x3e {
            lemma_digits_end(d, 2);
            lemma_digits_end_prefix(d, m, 2);
            let i = digits_end(d, 2);
            if i < m {
                lemma_digits_value_prefix(d, m, 2, i);
            }
        }
    }
}

/// A query split across two reads is answered once, when its last byte
/// arrives: a fresh reader that has read the first `m` bytes of the query
/// `q` (at most 64) answers nothing yet and keeps them all; what it then
/// scans, those bytes and the rest of `q`, holds just that query.
pub proof fn lemma_split_query_answered(q: Seq<u8>, m: int)
    requires
        q.len() > 0,
        q[0] == 0x1b,
        query_match(q) matches Some((n, _)) && n == q.len(),
        0 < m < q.len(),
        m <= 64,
    ensures
        scan_queries(Seq::<u8>::empty() + q.subrange(0, m), 0) == (Seq::<(int, int, QueryKind)>::empty(), 0int),
        keep_tail(q.subrange(0, m).subrange(0, m)) == q.subrange(0, m),
        query_match(q) matches Some((n, kind)) ==> scan_queries(q.subrange(0, m) + q.subrange(m, q.len() as int), 0).0
            == seq![(0int, n, kind)],
{
    let a = q.subrange(0, m);
    assert(Seq::<u8>::empty() + a =~= a);
    assert(a.subrange(0, m) =~= a);
    assert(a.subrange(0, a.len() as int) =~= a);
    lemma_query_prefix_unmatched(q, m);
    lemma_query_match_len(q);
    assert(a.len() < 2 || (a[0] == 0x1b && a[1] == 0x5b));
    assert(a + q.subrange(m, q.len() as int) =~= q);
    assert(q.subrange(0, q.len() as int) =~= q);
    assert(scan_queries(q, q.len() as int) == (Seq::<(int, int, QueryKind)>::empty(), q.len() as int));
}

proof fn lemma_dec_digits_are_digits(n: nat)
    ensures
        dec_digits(n).len() >= 1,
        forall|t: int| 0 <= t < dec_digits(n).len() ==> is_digit(#[trigger] dec_digits(n)[t]),
    decreases n,
{
    if n >= 10 {
        lemma_dec_digits_are_digits(n / 10);
    }
}

/// The decimal digits of `n`, placed anywhere, read back as `n`.
proof fn lemma_dec_digits_value(n: nat, pre: Seq<u8>, post: Seq<u8>)
    ensures
        digits_value(pre + dec_digits(n) + post, pre.len() as int, pre.len() as int + dec_digits(n).len()) == n,
    decreases n,
{
    let ds = dec_digits(n);
    let d = pre + ds + post;
    let j = pre.len() as int;
    let k = j + ds.len();
    lemma_dec_digits_are_digits(n);
    if n < 10 {
        assert(digits_value(d, j, j) == 0);
        assert(d[j] == ds[0]);
    } else {
        let head = dec_digits(n / 10);
        lemma_dec_digits_are_digits(n / 10);
        lemma_dec_digits_value(n / 10, pre, seq![ds.last()] + post);
        assert(pre + head + (seq![ds.last()] + post) =~= d);
        assert(head.len() + 1 == ds.len());
        assert(d[k - 1] == ds.last());
    }
}

/// A DECRQM query `ESC [ ? n $ p` for a mode `n` below 65536 is found, whole,
/// as a question about mode `n`; `ESC [ 6 n` asks for the cursor position,
/// `ESC [ ? u` for the keyboard flags.
pub proof fn lemma_queries_recognised(n: u16)
    ensures
        ({
            let q = seq![0x1bu8, 0x5bu8, 0x3fu8] + dec_digits(n as nat) + seq![0x24u8, 0x70u8];
            query_match(q) == Some((q.len() as int, QueryKind::DecMode(n)))
        }),
        query_match(seq![0x1bu8, 0x5bu8, 0x36u8, 0x6eu8]) == Some((4int, QueryKind::CursorPosition)),
        query_match(seq![0x1bu8, 0x5bu8, 0x3fu8, 0x75u8]) == Some((4int, QueryKind::KeyboardFlags)),
{
    let pre = seq![0x1bu8, 0x5bu8, 0x3fu8];
    let ds = dec_digits(n as nat);
    let post = seq![0x24u8, 0x70u8];
    let q = pre + ds + post;
    lemma_dec_digits_are_digits(n as nat);
    lemma_dec_digits_value(n as nat, pre, post);
    lemma_digits_end(q, 3);
    let i = digits_end(q, 3);
    assert forall|t: int| 3 <= t < 3 + ds.len() implies is_digit(#[trigger] q[t]) by {
        assert(q[t] == ds[t - 3]);
    }
    assert(q[3int + ds.len()] == 0x24u8);
    if i < 3 + ds.len() {
        assert(is_digit(q[i]));
    }
    if i > 3 + ds.len() {
        assert(is_digit(q[3int + ds.len()]));
    }
    assert(i == 3 + ds.len());
    assert(q[3] == ds[0]);
    assert(q[i + 1] == 0x70u8);
    assert(param_of(q, 3, i) == Some(n));
    let c = seq![0x1bu8, 0x5bu8, 0x36u8, 0x6eu8];
    lemma_digits_end(c, 2);
    reveal_with_fuel(digits_end, 3);
    assert(digits_end(c, 2) == 3);
    assert(digits_value(c, 2, 3) == 6) by {
        reveal_with_fuel(digits_value, 2);
    }
}

/// Reads the digits in `d[j..k]` as a `u16`.
fn parse_param(d: &[u8], j: usize, k: usize) -> (r: Option<u16>)
    requires
        j <= k <= d@.len(),
        forall|t: int| j <= t < k ==> is_digit(#[trigger] d@[t]),
    ensures
        r == param_of(d@, j as int, k as int),
{
    let mut acc: u32 = 0;
    let mut i: usize = j;
    while i < k
        invariant
            j <= i <= k <= d@.len(),
            forall|t: int| j <= t < k ==> is_digit(#[trigger] d@[t]),
            acc == (if digits_value(d@, j as int, i as int) > 65535 {
                65536
            } else {
                digits_value(d@, j as int, i as int)
            }),
        decreases k - i,
    {
        let digit = (d[i] - 48) as u32;
        assert(is_digit(d@[i as int]));
        assert(digits_value(d@, j as int, i + 1) == digits_value(d@, j as int, i as int) * 10 + digit);
        acc = if acc >= 65536 {
            65536
        } else {
            let n = acc * 10 + digit;
            if n > 65536 {
                65536
            } else {
                n
            }
        };
        i = i + 1;
    }
    if j < k && acc <= 65535 {
        Some(acc as u16)
    } else {
        None
    }
}

/// The query that the bytes at an escape start with: its length and what it
/// asks; `None` when they start no complete CSI sequence.
pub fn match_query_kind(data: &[u8]) -> (r: Option<(usize, QueryKind)>)
    ensures
        match r {
            Some((n, k)) => query_match(data@) == Some((n as int, k)),
            None => query_match(data@) is None,
        },
{
    let len = data.len();
    if len < 3 || data[1] != 0x5b {
        return None;
    }
    if data[2] == 0x3f {
        if len < 4 {
            return None;
        }
        if data[3] == 0x75 {
            return Some((4, QueryKind::KeyboardFlags));
        }
        let i = skip_digits(data, 3);
        proof {
            lemma_digits_end(data@, 3);
        }
        if i >= len {
            return None;
        }
        if data[i] == 0x24 {
            if i + 1 >= len {
                return None;
            }
            if data[i + 1] == 0x70 {
                let p = match parse_param(data, 3, i) {
                    Some(p) => p,
                    None => 0,
                };
                return Some((i + 2, QueryKind::DecMode(p)));
            }
        }
        return other(data);
    }
    if data[2] == 0x3e {
        return other(data);
    }
    let i = skip_digits(data, 2);
    proof {
        lemma_digits_end(data@, 2);
    }
    if i >= len {
        return None;
    }
    if data[i] == 0x6e {
        let p = parse_param(data, 2, i);
        if p == Some(6u16) {
            return Some((i + 1, QueryKind::CursorPosition));
        }
    }
    other(data)
}

fn other(data: &[u8]) -> (r: Option<(usize, QueryKind)>)
    ensures
        match r {
            Some((n, k)) => other_query(data@) == Some((n as int, k)),
            None => other_query(data@) is None,
        },
{
    match scan_csi_sequence_len(data) {
        Some(n) => Some((n, QueryKind::Other)),
        None => None,
    }
}

/// The terminal query that the bytes at an escape start with: how many bytes
/// it takes and the answer to write back (from the terminal state `state`,
/// none for a sequence that asks nothing); `None` when they start no complete
/// CSI sequence.
pub fn match_terminal_query(data: &[u8], outer_keyboard_enhanced: bool, state: &QueryState) -> (r: Option<
    (usize, Option<Vec<u8>>),
>)
    ensures
        match query_match(data@) {
            None => r is None,
            Some((n, kind)) => r matches Some((m, a)) && m == n && opt_bytes(a) == answer(
                kind,
                outer_keyboard_enhanced,
                *state,
            ),
        },
{
    match match_query_kind(data) {
        None => None,
        Some((n, kind)) => {
            let a = match kind {
                QueryKind::KeyboardFlags => Some(query_response(outer_keyboard_enhanced)),
                QueryKind::DecMode(m) => Some(
                    dec_mode_response(
                        m,
                        state.focus_reporting,
                        state.alternate_screen,
                        &state.mouse_protocol_mode,
                        &state.mouse_protocol_encoding,
                        state.bracketed_paste,
                        state.alternate_scroll,
                    ),
                ),
                QueryKind::CursorPosition => Some(cursor_position_response(state.cursor_row, state.cursor_col)),
                QueryKind::Other => None,
            };
            Some((n, a))
        },
    }
}

/// The queries found scanning `buf` from `i` (where each starts and ends,
/// and what it asks, in order), and where the bytes kept for the next read
/// start: at an escape that may start a CSI sequence not complete yet (the
/// end when there is none).
pub open spec fn scan_queries(buf: Seq<u8>, i: int) -> (Seq<(int, int, QueryKind)>, int)
    decreases buf.len() - i,
{
    if i < 0 || i >= buf.len() {
        (Seq::empty(), buf.len() as int)
    } else if buf[i] != 0x1b {
        scan_queries(buf, i + 1)
    } else {
        let rest = buf.subrange(i, buf.len() as int);
        proof {
            lemma_query_match_len(rest);
        }
        match query_match(rest) {
            None => if rest.len() < 2 || (rest[0] == 0x1b && rest[1] == 0x5b) {
                (Seq::empty(), i)
            } else {
                scan_queries(buf, i + 1)
            },
            Some((n, kind)) => {
                let after = scan_queries(buf, i + n);
                (seq![(i, i + n, kind)] + after.0, after.1)
            },
        }
    }
}

/// The answers to the queries `hits`, in order, the `k`-th answered from the
/// terminal state `states[k]`.
pub open spec fn replies(hits: Seq<(int, int, QueryKind)>, outer_keyboard_enhanced: bool, states: Seq<QueryState>) -> Seq<
    u8,
>
    decreases hits.len(),
{
    if hits.len() == 0 || states.len() == 0 {
        Seq::empty()
    } else {
        replies(hits.drop_last(), outer_keyboard_enhanced, states.drop_last()) + match answer(
            hits.last().2,
            outer_keyboard_enhanced,
            states.last(),
        ) {
            Some(a) => a,
            None => Seq::empty(),
        }
    }
}

/// What a vt100 parser has been through: each entry is a size (rows,
/// columns) and the output fed at that size. The first entry's size is the
/// one the parser was made with; each later entry starts with a resize.
pub open spec fn with_output(history: Seq<(u16, u16, Seq<u8>)>, bytes: Seq<u8>) -> Seq<(u16, u16, Seq<u8>)> {
    history.update(
        history.len() - 1,
        (history.last().0, history.last().1, history.last().2 + bytes),
    )
}

/// Feeding `a` then `b` is feeding `a + b`: vt100 reads its input a byte at
/// a time.
pub proof fn lemma_with_output_twice(history: Seq<(u16, u16, Seq<u8>)>, a: Seq<u8>, b: Seq<u8>)
    requires
        history.len() >= 1,
    ensures
        with_output(with_output(history, a), b) == with_output(history, a + b),
{
    assert(history.last().2 + a + b =~= history.last().2 + (a + b));
    assert(with_output(with_output(history, a), b) =~= with_output(history, a + b));
}

/// The cursor position (row, column, zero based) of a vt100 parser made
/// with `scrollback` lines of scrollback that went through `history`.
pub uninterp spec fn vt_cursor_position(scrollback: usize, history: Seq<(u16, u16, Seq<u8>)>) -> (u16, u16);

/// Whether the alternate screen is active in such a parser.
pub uninterp spec fn vt_alternate_screen(scrollback: usize, history: Seq<(u16, u16, Seq<u8>)>) -> bool;

/// Whether bracketed paste is on in such a parser.
pub uninterp spec fn vt_bracketed_paste(scrollback: usize, history: Seq<(u16, u16, Seq<u8>)>) -> bool;

/// The mouse reporting mode of such a parser.
pub uninterp spec fn vt_mouse_protocol_mode(scrollback: usize, history: Seq<(u16, u16, Seq<u8>)>) -> MouseProtocolMode;

/// The mouse reporting encoding of such a parser.
pub uninterp spec fn vt_mouse_protocol_encoding(
    scrollback: usize,
    history: Seq<(u16, u16, Seq<u8>)>,
) -> MouseProtocolEncoding;

/// Whether application cursor keys (DECCKM) are on in such a parser.
pub uninterp spec fn vt_application_cursor(scrollback: usize, history: Seq<(u16, u16, Seq<u8>)>) -> bool;

/// The text of the visible cell at `row`, `col` of such a parser (empty for
/// a blank cell or one outside the screen).
pub uninterp spec fn vt_cell_text(
    scrollback: usize,
    history: Seq<(u16, u16, Seq<u8>)>,
    row: u16,
    col: u16,
) -> Seq<char>;

/// `st` holds the screen's part of the state of a parser made with
/// `scrollback` lines of scrollback that went through `history` (the flags
/// shared with the output reader are not the screen's).
pub open spec fn screen_fields_match(st: QueryState, scrollback: usize, history: Seq<(u16, u16, Seq<u8>)>) -> bool {
    &&& st.cursor_row == vt_cursor_position(scrollback, history).0
    &&& st.cursor_col == vt_cursor_position(scrollback, history).1
    &&& st.alternate_screen == vt_alternate_screen(scrollback, history)
    &&& st.bracketed_paste == vt_bracketed_paste(scrollback, history)
    &&& st.mouse_protocol_mode == vt_mouse_protocol_mode(scrollback, history)
    &&& st.mouse_protocol_encoding == vt_mouse_protocol_encoding(scrollback, history)
}

/// vt100's terminal emulator, with the size it was given: at least two rows
/// and two columns (with fewer, `vt100::Parser::process` panics on some
/// output: any printable byte with no row, a line that wraps on a screen of
/// one row, a double-width character with one column). The size can only
/// change through `set_size`, and output only reaches the parser through
/// `feed`, so `rows`, `cols` and the history are always the parser's own.
pub struct TerminalScreen {
    parser: vt100::Parser,
    rows: u16,
    cols: u16,
    scrollback: Ghost<usize>,
    history: Ghost<Seq<(u16, u16, Seq<u8>)>>,
}

impl TerminalScreen {
    /// The number of rows.
    pub closed spec fn rows(self) -> u16 {
        self.rows
    }

    /// The number of columns.
    pub closed spec fn cols(self) -> u16 {
        self.cols
    }

    /// The lines of scrollback the parser was made with.
    pub closed spec fn scrollback_len(self) -> usize {
        self.scrollback@
    }

    /// The sizes the parser had and the output fed at each, in order.
    pub closed spec fn history(self) -> Seq<(u16, u16, Seq<u8>)> {
        self.history@
    }

    #[verifier::type_invariant]
    spec fn well_formed(self) -> bool {
        &&& self.rows >= 2 && self.cols >= 2
        &&& self.history@.len() >= 1
        &&& self.history@.last().0 == self.rows
        &&& self.history@.last().1 == self.cols
    }

    /// A blank screen of `rows` by `cols`, keeping `scrollback` lines of
    /// history.
    pub fn new(rows: u16, cols: u16, scrollback: usize) -> (r: Self)
        requires
            rows >= 2,
            cols >= 2,
        ensures
            r.rows() == rows,
            r.cols() == cols,
            r.scrollback_len() == scrollback,
            r.history() == seq![(rows, cols, Seq::<u8>::empty())],
    {
        let ghost history = seq![(rows, cols, Seq::<u8>::empty())];
        TerminalScreen {
            parser: new_parser(rows, cols, scrollback),
            rows,
            cols,
            scrollback: Ghost(scrollback),
            history: Ghost(history),
        }
    }

    /// Resizes the screen to `rows` by `cols`.
    pub fn set_size(&mut self, rows: u16, cols: u16)
        requires
            rows >= 2,
            cols >= 2,
        ensures
            final(self).rows() == rows,
            final(self).cols() == cols,
            final(self).scrollback_len() == old(self).scrollback_len(),
            final(self).history() == old(self).history().push((rows, cols, Seq::<u8>::empty())),
    {
        proof {
            use_type_invariant(&*self);
        }
        let mut parser = new_parser(2, 2, 0);
        std::mem::swap(&mut parser, &mut self.parser);
        resize_parser(&mut parser, rows, cols);
        let ghost scrollback = self.scrollback@;
        let ghost history = self.history@.push((rows, cols, Seq::<u8>::empty()));
        *self = TerminalScreen { parser, rows, cols, scrollback: Ghost(scrollback), history: Ghost(history) };
    }

    /// Feeds output to the parser.
    fn feed(&mut self, bytes: &[u8])
        ensures
            final(self).rows() == old(self).rows(),
            final(self).cols() == old(self).cols(),
            final(self).scrollback_len() == old(self).scrollback_len(),
            final(self).history() == with_output(old(self).history(), bytes@),
    {
        proof {
            use_type_invariant(&*self);
        }
        let mut parser = new_parser(2, 2, 0);
        std::mem::swap(&mut parser, &mut self.parser);
        feed_parser(&mut parser, bytes);
        let ghost scrollback = self.scrollback@;
        let ghost history = with_output(self.history@, bytes@);
        *self = TerminalScreen {
            parser,
            rows: self.rows,
            cols: self.cols,
            scrollback: Ghost(scrollback),
            history: Ghost(history),
        };
    }

    /// The modes that input encoding depends on: those the screen keeps, and
    /// the keyboard protocol and the flags shared with the output reader as
    /// given.
    pub fn modes(&self, keyboard_enhanced: bool, focus_reporting: bool, alternate_scroll: bool) -> (r: TerminalModes)
        ensures
            r.application_cursor == vt_application_cursor(self.scrollback_len(), self.history()),
            r.keyboard_enhanced == keyboard_enhanced,
            r.bracketed_paste == vt_bracketed_paste(self.scrollback_len(), self.history()),
            r.focus_reporting == focus_reporting,
            r.alternate_screen == vt_alternate_screen(self.scrollback_len(), self.history()),
            r.alternate_scroll == alternate_scroll,
            r.mouse_protocol_mode == vt_mouse_protocol_mode(self.scrollback_len(), self.history()),
            r.mouse_protocol_encoding == vt_mouse_protocol_encoding(self.scrollback_len(), self.history()),
    {
        TerminalModes {
            application_cursor: screen_application_cursor(self),
            keyboard_enhanced,
            bracketed_paste: screen_bracketed_paste(self),
            focus_reporting,
            alternate_screen: screen_alternate_screen(self),
            alternate_scroll,
            mouse_protocol_mode: screen_mouse_protocol_mode(self),
            mouse_protocol_encoding: screen_mouse_protocol_encoding(self),
        }
    }

    /// The text of every visible cell, row by row, for finding a URL under a
    /// click.
    pub fn snapshot(&self) -> (r: ScreenSnapshot)
        ensures
            r.rows == self.rows(),
            r.cols == self.cols(),
            r.cells@.len() == self.rows(),
            forall|i: int| 0 <= i < self.rows() ==> (#[trigger] r.cells@[i])@.len() == self.cols(),
            forall|i: int, j: int|
                0 <= i < self.rows() && 0 <= j < self.cols() ==> (#[trigger] r.cells@[i]@[j])@ == vt_cell_text(
                    self.scrollback_len(),
                    self.history(),
                    i as u16,
                    j as u16,
                ),
    {
        let mut cells: Vec<Vec<String>> = Vec::new();
        let mut i: u16 = 0;
        while i < self.rows
            invariant
                i <= self.rows,
                cells@.len() == i,
                forall|a: int| 0 <= a < i ==> (#[trigger] cells@[a])@.len() == self.cols,
                forall|a: int, b: int|
                    0 <= a < i && 0 <= b < self.cols ==> (#[trigger] cells@[a]@[b])@ == vt_cell_text(
                        self.scrollback@,
                        self.history@,
                        a as u16,
                        b as u16,
                    ),
            decreases self.rows - i,
        {
            let mut row: Vec<String> = Vec::new();
            let mut j: u16 = 0;
            while j < self.cols
                invariant
                    j <= self.cols,
                    row@.len() == j,
                    forall|b: int| 0 <= b < j ==> (#[trigger] row@[b])@ == vt_cell_text(
                        self.scrollback@,
                        self.history@,
                        i,
                        b as u16,
                    ),
                decreases self.cols - j,
            {
                row.push(screen_cell_text(self, i, j));
                j = j + 1;
            }
            cells.push(row);
            i = i + 1;
        }
        ScreenSnapshot { rows: self.rows, cols: self.cols, cells }
    }

    /// The emulator, to draw its screen.
    pub fn parser(&self) -> &vt100::Parser {
        &self.parser
    }
}

/// Calls `vt100::Parser::new(rows, cols, scrollback)`. With no row the call
/// itself panics, so the size is held to what `process` needs.
#[verifier::external_body]
fn new_parser(rows: u16, cols: u16, scrollback: usize) -> vt100::Parser
    requires
        rows >= 2,
        cols >= 2,
{
    vt100::Parser::new(rows, cols, scrollback)
}

/// Calls `vt100::Parser::set_size(rows, cols)`. With no row the call itself
/// panics, so the size is held to what `process` needs.
#[verifier::external_body]
fn resize_parser(parser: &mut vt100::Parser, rows: u16, cols: u16)
    requires
        rows >= 2,
        cols >= 2,
{
    parser.set_size(rows, cols);
}

/// Calls `vt100::Parser::process(bytes)`, which reads the bytes one at a time
/// and updates the screen the parser keeps (the caller records them in the
/// screen's history).
#[verifier::external_body]
fn feed_parser(parser: &mut vt100::Parser, bytes: &[u8]) {
    parser.process(bytes);
}

/// `vt100::Screen::cursor_position` of the parser's screen: (row, column),
/// zero based. vt100's state is a function of the size and scrollback the
/// parser was made with and of the output fed and resizes made since, which
/// `TerminalScreen` records; the result is named as that function.
#[verifier::external_body]
fn screen_cursor_position(screen: &TerminalScreen) -> (r: (u16, u16))
    ensures
        r == vt_cursor_position(screen.scrollback_len(), screen.history()),
{
    screen.parser.screen().cursor_position()
}

/// `vt100::Screen::application_cursor` of the parser's screen, named as a
/// function of the screen's history (see `screen_cursor_position`).
#[verifier::external_body]
fn screen_application_cursor(screen: &TerminalScreen) -> (r: bool)
    ensures
        r == vt_application_cursor(screen.scrollback_len(), screen.history()),
{
    screen.parser.screen().application_cursor()
}

/// `vt100::Screen::cell(row, col)` of the parser's screen and its
/// `contents()` (empty where there is no such cell), named as a function of
/// the screen's history and the position (see `screen_cursor_position`).
#[verifier::external_body]
fn screen_cell_text(screen: &TerminalScreen, row: u16, col: u16) -> (r: String)
    ensures
        r@ == vt_cell_text(screen.scrollback_len(), screen.history(), row, col),
{
    match screen.parser.screen().cell(row, col) {
        Some(cell) => cell.contents(),
        None => String::new(),
    }
}

/// `vt100::Screen::alternate_screen` of the parser's screen, named as a
/// function of the screen's history (see `screen_cursor_position`).
#[verifier::external_body]
fn screen_alternate_screen(screen: &TerminalScreen) -> (r: bool)
    ensures
        r == vt_alternate_screen(screen.scrollback_len(), screen.history()),
{
    screen.parser.screen().alternate_screen()
}

/// `vt100::Screen::bracketed_paste` of the parser's screen, named as a
/// function of the screen's history (see `screen_cursor_position`).
#[verifier::external_body]
fn screen_bracketed_paste(screen: &TerminalScreen) -> (r: bool)
    ensures
        r == vt_bracketed_paste(screen.scrollback_len(), screen.history()),
{
    screen.parser.screen().bracketed_paste()
}

/// `vt100::Screen::mouse_protocol_mode` of the parser's screen, variant for
/// variant (`None` is `Disabled`), named as a function of the screen's
/// history (see `screen_cursor_position`).
#[verifier::external_body]
fn screen_mouse_protocol_mode(screen: &TerminalScreen) -> (r: MouseProtocolMode)
    ensures
        r == vt_mouse_protocol_mode(screen.scrollback_len(), screen.history()),
{
    match screen.parser.screen().mouse_protocol_mode() {
        vt100::MouseProtocolMode::None => MouseProtocolMode::Disabled,
        vt100::MouseProtocolMode::Press => MouseProtocolMode::Press,
        vt100::MouseProtocolMode::PressRelease => MouseProtocolMode::PressRelease,
        vt100::MouseProtocolMode::ButtonMotion => MouseProtocolMode::ButtonMotion,
        vt100::MouseProtocolMode::AnyMotion => MouseProtocolMode::AnyMotion,
    }
}

/// `vt100::Screen::mouse_protocol_encoding` of the parser's screen, variant
/// for variant, named as a function of the screen's history (see
/// `screen_cursor_position`).
#[verifier::external_body]
fn screen_mouse_protocol_encoding(screen: &TerminalScreen) -> (r: MouseProtocolEncoding)
    ensures
        r == vt_mouse_protocol_encoding(screen.scrollback_len(), screen.history()),
{
    match screen.parser.screen().mouse_protocol_encoding() {
        vt100::MouseProtocolEncoding::Default => MouseProtocolEncoding::Default,
        vt100::MouseProtocolEncoding::Utf8 => MouseProtocolEncoding::Utf8,
        vt100::MouseProtocolEncoding::Sgr => MouseProtocolEncoding::Sgr,
    }
}

/// The terminal state that the answers read, as the parser and the flags
/// shared with the output reader hold it now.
fn read_query_state(parser: &TerminalScreen, focus_reporting: &AtomicBool, alternate_scroll: &AtomicBool) -> (r:
    QueryState)
    ensures
        screen_fields_match(r, parser.scrollback_len(), parser.history()),
{
    let (row, col) = screen_cursor_position(parser);
    QueryState {
        cursor_row: row,
        cursor_col: col,
        focus_reporting: load_bool(focus_reporting),
        alternate_screen: screen_alternate_screen(parser),
        mouse_protocol_mode: screen_mouse_protocol_mode(parser),
        mouse_protocol_encoding: screen_mouse_protocol_encoding(parser),
        bracketed_paste: screen_bracketed_paste(parser),
        alternate_scroll: load_bool(alternate_scroll),
    }
}

/// The output of an embedded terminal as it reaches the screen parser: the
/// bytes of a query split across reads are kept here until it is complete.
pub struct OutputQueries {
    pub query_tail: Vec<u8>,
}

impl OutputQueries {
    pub fn new() -> (r: Self)
        ensures
            r.query_tail@ == Seq::<u8>::empty(),
    {
        OutputQueries { query_tail: Vec::new() }
    }

    /// Feeds the kept bytes followed by `data` to the parser, answering the
    /// terminal queries found in them: returns the answers, in order, each
    /// from the terminal state when its query was reached (the parser having
    /// read everything before the query); a query that may not be complete
    /// yet is kept (its last 64 bytes at most), not fed, and waits for the
    /// next read. The focus and alternate-scroll flags are read from the
    /// atomics shared with the output reader, as they are at that moment.
    pub fn process_output_chunk(
        &mut self,
        parser: &mut TerminalScreen,
        data: &[u8],
        outer_keyboard_enhanced: bool,
        focus_reporting: &AtomicBool,
        alternate_scroll: &AtomicBool,
    ) -> (r: Vec<u8>)
        ensures
            ({
                let buf = old(self).query_tail@ + data@;
                let sc = scan_queries(buf, 0);
                &&& final(self).query_tail@ == keep_tail(buf.subrange(sc.1, buf.len() as int))
                &&& final(parser).rows() == old(parser).rows()
                &&& final(parser).cols() == old(parser).cols()
                &&& final(parser).scrollback_len() == old(parser).scrollback_len()
                &&& final(parser).history() == with_output(old(parser).history(), buf.subrange(0, sc.1))
                &&& exists|states: Seq<QueryState>|
                    {
                        &&& states.len() == sc.0.len()
                        &&& #[trigger] replies(sc.0, outer_keyboard_enhanced, states) == r@
                        &&& forall|k: int|
                            0 <= k < states.len() ==> screen_fields_match(
                                #[trigger] states[k],
                                old(parser).scrollback_len(),
                                with_output(old(parser).history(), buf.subrange(0, sc.0[k].0)),
                            )
                    }
            }),
    {
        let mut buf: Vec<u8> = Vec::new();
        push_all(&mut buf, self.query_tail.as_slice());
        push_all(&mut buf, data);
        let ghost b = buf@;
        assert(b =~= old(self).query_tail@ + data@);
        let len = buf.len();
        let mut responses: Vec<u8> = Vec::new();
        let mut i: usize = 0;
        let mut parsed_until: usize = 0;
        let mut tail_start: usize = len;
        let mut done = false;
        let ghost mut hits: Seq<(int, int, QueryKind)> = Seq::empty();
        let ghost mut states: Seq<QueryState> = Seq::empty();
        proof {
            use_type_invariant(&*parser);
            assert(old(parser).history().last().2 + b.subrange(0, 0) =~= old(parser).history().last().2);
            assert(with_output(old(parser).history(), b.subrange(0, 0)) =~= old(parser).history());
        }
        assert(scan_queries(b, 0) == (hits + scan_queries(b, 0).0, scan_queries(b, 0).1)) by {
            assert(hits + scan_queries(b, 0).0 =~= scan_queries(b, 0).0);
        }
        while i < len
            invariant
                len == buf@.len(),
                b == buf@,
                parsed_until <= i <= len,
                tail_start <= len,
                states.len() == hits.len(),
                responses@ == replies(hits, outer_keyboard_enhanced, states),
                parser.rows() == old(parser).rows(),
                parser.cols() == old(parser).cols(),
                parser.scrollback_len() == old(parser).scrollback_len(),
                parser.history() == with_output(old(parser).history(), b.subrange(0, parsed_until as int)),
                forall|k: int|
                    0 <= k < states.len() ==> screen_fields_match(
                        #[trigger] states[k],
                        old(parser).scrollback_len(),
                        with_output(old(parser).history(), b.subrange(0, hits[k].0)),
                    ),
                old(parser).history().len() >= 1,
                !done ==> scan_queries(b, 0) == (hits + scan_queries(b, i as int).0, scan_queries(b, i as int).1)
                    && tail_start == len,
                done ==> scan_queries(b, 0) == (hits, tail_start as int) && parsed_until <= tail_start && i == len,
            decreases len - i,
        {
            if buf[i] != 0x1b {
                assert(scan_queries(b, i as int) == scan_queries(b, i + 1));
                i = i + 1;
            } else {
                if i > parsed_until {
                    let ghost p0 = parsed_until as int;
                    parser.feed(slice_range(buf.as_slice(), parsed_until, i));
                    proof {
                        lemma_with_output_twice(old(parser).history(), b.subrange(0, p0), b.subrange(p0, i as int));
                        assert(b.subrange(0, p0) + b.subrange(p0, i as int) =~= b.subrange(0, i as int));
                    }
                    parsed_until = i;
                }
                let st = read_query_state(parser, focus_reporting, alternate_scroll);
                let rest = slice_range(buf.as_slice(), i, len);
                proof {
                    lemma_query_match_len(rest@);
                }
                match match_terminal_query(rest, outer_keyboard_enhanced, &st) {
                    None => {
                        if terminal_query_needs_more_bytes(rest) {
                            proof {
                                assert(scan_queries(b, i as int) == (Seq::<(int, int, QueryKind)>::empty(), i as int));
                                assert(hits + Seq::<(int, int, QueryKind)>::empty() =~= hits);
                            }
                            tail_start = i;
                            i = len;
                            done = true;
                        } else {
                            assert(scan_queries(b, i as int) == scan_queries(b, i + 1));
                            i = i + 1;
                        }
                    },
                    Some((consumed, resp)) => {
                        let ghost kind = query_match(rest@)->Some_0.1;
                        let ghost before = responses@;
                        match resp {
                            Some(a) => {
                                let mut a = a;
                                responses.append(&mut a);
                            },
                            None => {},
                        }
                        let end = i + consumed;
                        parser.feed(slice_range(buf.as_slice(), i, end));
                        proof {
                            lemma_with_output_twice(old(parser).history(), b.subrange(0, i as int), b.subrange(i as int, end as int));
                            assert(b.subrange(0, i as int) + b.subrange(i as int, end as int) =~= b.subrange(0, end as int));
                        }
                        parsed_until = end;
                        proof {
                            let h = (i as int, end as int, kind);
                            let after = scan_queries(b, end as int);
                            assert(scan_queries(b, i as int) == (seq![h] + after.0, after.1));
                            assert(hits + (seq![h] + after.0) =~= hits.push(h) + after.0);
                            let hs = hits.push(h);
                            let ss = states.push(st);
                            assert(hs.drop_last() =~= hits);
                            assert(ss.drop_last() =~= states);
                            hits = hs;
                            states = ss;
                        }
                        i = end;
                    },
                }
            }
        }
        proof {
            if !done {
                assert(hits + Seq::<(int, int, QueryKind)>::empty() =~= hits);
            }
        }
        let parse_end = if tail_start < len {
            tail_start
        } else {
            len
        };
        if parsed_until < parse_end {
            let ghost p0 = parsed_until as int;
            parser.feed(slice_range(buf.as_slice(), parsed_until, parse_end));
            proof {
                lemma_with_output_twice(old(parser).history(), b.subrange(0, p0), b.subrange(p0, parse_end as int));
                assert(b.subrange(0, p0) + b.subrange(p0, parse_end as int) =~= b.subrange(0, parse_end as int));
            }
        }
        let keep_from = if len - tail_start > 64 {
            len - 64
        } else {
            tail_start
        };
        let mut tail: Vec<u8> = Vec::new();
        push_all(&mut tail, slice_range(buf.as_slice(), keep_from, len));
        assert(tail@ =~= keep_tail(b.subrange(tail_start as int, len as int)));
        self.query_tail = tail;
        assert(replies(hits, outer_keyboard_enhanced, states) == responses@);
        responses
    }
}

} // verus!
