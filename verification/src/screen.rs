//! Links on the embedded terminal's screen: finding the `http://` or
//! `https://` URL under a click.

use vstd::prelude::*;

use crate::text::{from_utf8_lossy, str_bytes, utf8_lossy};

verus! {

/// What the URL finder reads of a terminal screen: its size and the text of
/// each cell (empty for a blank cell).
pub struct ScreenSnapshot {
    pub rows: u16,
    pub cols: u16,
    /// `cells[r][c]` is the text of the cell at row `r`, column `c`; a cell
    /// missing from the table reads as blank.
    pub cells: Vec<Vec<String>>,
}

/// The text a cell contributes to its row: its contents, or a space when it
/// is blank or missing.
pub open spec fn cell_text(cells: Seq<Vec<String>>, row: int, col: int) -> Seq<char> {
    if 0 <= row < cells.len() && 0 <= col < cells[row]@.len() && cells[row]@[col]@.len() > 0 {
        cells[row]@[col]@
    } else {
        seq![' ']
    }
}

/// The text of the first `n` cells of a row.
pub open spec fn row_text(cells: Seq<Vec<String>>, row: int, n: int) -> Seq<char>
    decreases n,
{
    if n <= 0 {
        Seq::empty()
    } else {
        row_text(cells, row, n - 1) + cell_text(cells, row, n - 1)
    }
}

/// Bytes that end a URL: whitespace, quotes, angle brackets, `|`, braces.
pub open spec fn is_url_delimiter(b: u8) -> bool {
    b == 32 || b == 9 || b == 34 || b == 39 || b == 60 || b == 62 || b == 124 || b == 123 || b == 125
}

/// Bytes dropped from the end of a URL: `.`, `,`, `;`, `:`, `!`, `?`, `)`, `]`.
pub open spec fn is_trailing_punct(b: u8) -> bool {
    b == 46 || b == 44 || b == 59 || b == 58 || b == 33 || b == 63 || b == 41 || b == 93
}

/// Whether `p` occurs in `b` at position `i`.
pub open spec fn bytes_at(b: Seq<u8>, i: int, p: Seq<u8>) -> bool {
    0 <= i && i + p.len() <= b.len() && b.subrange(i, i + p.len()) == p
}

/// `https://` in ASCII.
pub open spec fn https_bytes() -> Seq<u8> {
    seq![104u8, 116, 116, 112, 115, 58, 47, 47]
}

/// `http://` in ASCII.
pub open spec fn http_bytes() -> Seq<u8> {
    seq![104u8, 116, 116, 112, 58, 47, 47]
}

/// The length of the URL scheme starting at `i`, or 0.
pub open spec fn scheme_len(b: Seq<u8>, i: int) -> int {
    if bytes_at(b, i, https_bytes()) {
        8
    } else if bytes_at(b, i, http_bytes()) {
        7
    } else {
        0
    }
}

/// The first delimiter at or after `e`, or the end.
pub open spec fn extend_end(b: Seq<u8>, e: int) -> int
    decreases b.len() - e,
{
    if 0 <= e < b.len() && !is_url_delimiter(b[e]) {
        extend_end(b, e + 1)
    } else {
        e
    }
}

/// `e` moved back over trailing punctuation, not below `lo`.
pub open spec fn strip_end(b: Seq<u8>, lo: int, e: int) -> int
    decreases e - lo,
{
    if e > lo && 0 < e <= b.len() && is_trailing_punct(b[e - 1]) {
        strip_end(b, lo, e - 1)
    } else {
        e
    }
}

pub proof fn lemma_extend_end(b: Seq<u8>, e: int)
    requires
        0 <= e <= b.len(),
    ensures
        e <= extend_end(b, e) <= b.len(),
    decreases b.len() - e,
{
    if 0 <= e < b.len() && !is_url_delimiter(b[e]) {
        lemma_extend_end(b, e + 1);
    }
}

pub proof fn lemma_strip_end(b: Seq<u8>, lo: int, e: int)
    requires
        lo <= e,
    ensures
        lo <= strip_end(b, lo, e) <= e,
    decreases e - lo,
{
    if e > lo && 0 < e <= b.len() && is_trailing_punct(b[e - 1]) {
        lemma_strip_end(b, lo, e - 1);
    }
}

/// Scanning from byte `i`: the start and end of the first URL that covers
/// byte position `col`, skipping URLs that do not.
pub open spec fn url_scan(b: Seq<u8>, i: int, col: int) -> Option<(int, int)>
    decreases b.len() - i,
{
    if i < 0 || i >= b.len() {
        None
    } else {
        let p = scheme_len(b, i);
        if p == 0 {
            url_scan(b, i + 1, col)
        } else {
            proof {
                lemma_extend_end(b, i + p);
                lemma_strip_end(b, i + p, extend_end(b, i + p));
            }
            let e = strip_end(b, i + p, extend_end(b, i + p));
            if e > i + p && i <= col < e {
                Some((i, e))
            } else {
                url_scan(b, e, col)
            }
        }
    }
}

/// The URL under the cell at `row`, `col`: the row's text is the cells'
/// texts in order, and `col` is compared with byte positions in that text.
pub open spec fn url_at_spec(screen: ScreenSnapshot, row: u16, col: u16) -> Option<Seq<char>> {
    if row >= screen.rows || col >= screen.cols {
        None
    } else {
        let b = vstd::utf8::encode_utf8(row_text(screen.cells@, row as int, screen.cols as int));
        match url_scan(b, 0, col as int) {
            Some((s, e)) => Some(utf8_lossy(b.subrange(s, e))),
            None => None,
        }
    }
}

/// Whether `p` occurs in `b` at position `i`.
fn bytes_match(b: &Vec<u8>, i: usize, p: &[u8]) -> (r: bool)
    ensures
        r == bytes_at(b@, i as int, p@),
{
    if i > b.len() || p.len() > b.len() - i {
        return false;
    }
    let mut k: usize = 0;
    while k < p.len()
        invariant
            i + p.len() <= b.len(),
            k <= p.len(),
            forall|j: int| 0 <= j < k ==> b@[i + j] == p@[j],
        decreases p.len() - k,
    {
        if b[i + k] != p[k] {
            assert(b@.subrange(i as int, i + p.len())[k as int] != p@[k as int]);
            return false;
        }
        k = k + 1;
    }
    assert(b@.subrange(i as int, i + p.len()) =~= p@);
    true
}

/// The text of a row, cell by cell.
fn row_string(screen: &ScreenSnapshot, row: u16) -> (r: String)
    ensures
        r@ == row_text(screen.cells@, row as int, screen.cols as int),
{
    let mut s = String::new();
    let mut c: u16 = 0;
    while c < screen.cols
        invariant
            c <= screen.cols,
            s@ == row_text(screen.cells@, row as int, c as int),
        decreases screen.cols - c,
    {
        let r = row as usize;
        let ci = c as usize;
        if r < screen.cells.len() && ci < screen.cells[r].len() && !screen.cells[r][ci].as_str().is_empty() {
            s.append(screen.cells[r][ci].as_str());
        } else {
            s.append(" ");
            proof {
                reveal_strlit(" ");
            }
        }
        assert(s@ =~= row_text(screen.cells@, row as int, c as int + 1));
        c = c + 1;
    }
    s
}

/// The URL under the cell at `row`, `col` of the screen, if a click there
/// lands on one: a run starting with `http://` or `https://` and ending at
/// whitespace, a quote, `<`, `>`, `|`, a brace or the row's end, without
/// trailing `.,;:!?)]`.
pub fn url_at_position(screen: &ScreenSnapshot, row: u16, col: u16) -> (r: Option<String>)
    ensures
        match url_at_spec(*screen, row, col) {
            Some(u) => r matches Some(s) && s@ == u,
            None => r is None,
        },
{
    if row >= screen.rows || col >= screen.cols {
        return None;
    }
    let text = row_string(screen, row);
    let b = str_bytes(text.as_str());
    let https: [u8; 8] = [104, 116, 116, 112, 115, 58, 47, 47];
    let http: [u8; 7] = [104, 116, 116, 112, 58, 47, 47];
    assert(https@ =~= https_bytes());
    assert(http@ =~= http_bytes());
    let c = col as usize;
    let mut i: usize = 0;
    while i < b.len()
        invariant
            c == col,
            row < screen.rows && col < screen.cols,
            b@ == vstd::utf8::encode_utf8(row_text(screen.cells@, row as int, screen.cols as int)),
            url_scan(b@, 0, c as int) == url_scan(b@, i as int, c as int),
            https@ == https_bytes(),
            http@ == http_bytes(),
        decreases b.len() - i,
    {
        let p: usize = if bytes_match(&b, i, https.as_slice()) {
            8
        } else if bytes_match(&b, i, http.as_slice()) {
            7
        } else {
            0
        };
        assert(p as int == scheme_len(b@, i as int));
        if p == 0 {
            i = i + 1;
        } else {
            let start = i;
            let mut end = start + p;
            proof {
                lemma_extend_end(b@, end as int);
            }
            while end < b.len() && !(b[end] == 32 || b[end] == 9 || b[end] == 34 || b[end] == 39
                || b[end] == 60 || b[end] == 62 || b[end] == 124 || b[end] == 123 || b[end] == 125)
                invariant
                    start + p <= end <= b.len(),
                    extend_end(b@, (start + p) as int) == extend_end(b@, end as int),
                decreases b.len() - end,
            {
                end = end + 1;
            }
            let ghost ext = end as int;
            proof {
                lemma_strip_end(b@, (start + p) as int, ext);
            }
            while end > start + p && (b[end - 1] == 46 || b[end - 1] == 44 || b[end - 1] == 59 || b[end
                - 1] == 58 || b[end - 1] == 33 || b[end - 1] == 63 || b[end - 1] == 41 || b[end - 1]
                == 93)
                invariant
                    start + p <= end <= ext <= b.len(),
                    strip_end(b@, (start + p) as int, ext) == strip_end(b@, (start + p) as int, end as int),
                decreases end,
            {
                end = end - 1;
            }
            assert(end as int == strip_end(b@, (start + p) as int, extend_end(b@, (start + p) as int)));
            if end > start + p && start <= c && c < end {
                let mut u: Vec<u8> = Vec::new();
                let mut k = start;
                while k < end
                    invariant
                        start <= k <= end <= b.len(),
                        u@ == b@.subrange(start as int, k as int),
                    decreases end - k,
                {
                    u.push(b[k]);
                    assert(u@ =~= b@.subrange(start as int, k + 1));
                    k = k + 1;
                }
                return Some(from_utf8_lossy(u.as_slice()));
            }
            i = end;
        }
    }
    None
}

} // verus!
