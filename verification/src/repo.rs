//! Repository references: `owner/repo`, `https://github.com/owner/repo(.git)`
//! and `git@github.com:owner/repo(.git)`.

use vstd::prelude::*;

use crate::text::{
    chars_contain, chars_start_with, is_prefix, is_white_space, occurs_in, push_char, str_chars, trim, trim_end_ws,
    trim_start_ws, trimmed,
};

verus! {

/// The position of the first `c` in `s`.
pub open spec fn index_of(s: Seq<char>, c: char) -> Option<int>
    decreases s.len(),
{
    if s.len() == 0 {
        None
    } else if s[0] == c {
        Some(0)
    } else {
        match index_of(s.drop_first(), c) {
            Some(k) => Some(k + 1),
            None => None,
        }
    }
}

/// The pieces of `s` between occurrences of `c` (one more piece than there
/// are occurrences; pieces may be empty).
pub open spec fn split_on(s: Seq<char>, c: char) -> Seq<Seq<char>>
    decreases s.len(),
{
    match index_of(s, c) {
        None => seq![s],
        Some(k) => if 0 <= k < s.len() {
            seq![s.subrange(0, k)] + split_on(s.subrange(k + 1, s.len() as int), c)
        } else {
            seq![s]
        },
    }
}

pub proof fn lemma_index_of(s: Seq<char>, c: char)
    ensures
        match index_of(s, c) {
            Some(k) => 0 <= k < s.len() && s[k] == c && forall|t: int| 0 <= t < k ==> s[t] != c,
            None => forall|t: int| 0 <= t < s.len() ==> s[t] != c,
        },
    decreases s.len(),
{
    if s.len() > 0 && s[0] != c {
        lemma_index_of(s.drop_first(), c);
        match index_of(s.drop_first(), c) {
            Some(k) => {
                assert forall|t: int| 0 <= t < k + 1 implies s[t] != c by {
                    if t > 0 {
                        assert(s[t] == s.drop_first()[t - 1]);
                    }
                }
            },
            None => {
                assert forall|t: int| 0 <= t < s.len() implies s[t] != c by {
                    if t > 0 {
                        assert(s[t] == s.drop_first()[t - 1]);
                    }
                }
            },
        }
    }
}

proof fn lemma_index_of_is(s: Seq<char>, c: char, k: int)
    requires
        0 <= k < s.len(),
        s[k] == c,
        forall|t: int| 0 <= t < k ==> s[t] != c,
    ensures
        index_of(s, c) == Some(k),
    decreases s.len(),
{
    lemma_index_of(s, c);
    match index_of(s, c) {
        Some(j) => {
            if j < k {
            } else if j > k {
            }
        },
        None => {},
    }
}

proof fn lemma_index_of_none(s: Seq<char>, c: char)
    requires
        forall|t: int| 0 <= t < s.len() ==> s[t] != c,
    ensures
        index_of(s, c) is None,
{
    lemma_index_of(s, c);
}

/// The position of the first `c` in `v`.
pub fn find_char(v: &Vec<char>, c: char) -> (r: Option<usize>)
    ensures
        match r {
            Some(k) => index_of(v@, c) == Some(k as int),
            None => index_of(v@, c) is None,
        },
{
    let mut i: usize = 0;
    while i < v.len()
        invariant
            i <= v.len(),
            forall|t: int| 0 <= t < i ==> v@[t] != c,
        decreases v.len() - i,
    {
        if v[i] == c {
            proof {
                lemma_index_of_is(v@, c, i as int);
            }
            return Some(i);
        }
        i = i + 1;
    }
    proof {
        lemma_index_of_none(v@, c);
    }
    None
}

/// The pieces of `s` between occurrences of `sep`.
pub fn split_chars(s: &Vec<char>, sep: char) -> (r: Vec<Vec<char>>)
    ensures
        r@.len() == split_on(s@, sep).len(),
        forall|k: int| 0 <= k < r@.len() ==> #[trigger] r@[k]@ == split_on(s@, sep)[k],
{
    let mut r: Vec<Vec<char>> = Vec::new();
    let mut cur: Vec<char> = Vec::new();
    let mut start: usize = 0;
    let mut i: usize = 0;
    assert(s@.subrange(0, s@.len() as int) =~= s@);
    while i < s.len()
        invariant
            start <= i <= s.len(),
            cur@ == s@.subrange(start as int, i as int),
            forall|t: int| start <= t < i ==> s@[t] != sep,
            split_on(s@, sep).len() == r@.len() + split_on(s@.subrange(start as int, s@.len() as int), sep).len(),
            forall|k: int| 0 <= k < r@.len() ==> #[trigger] r@[k]@ == split_on(s@, sep)[k],
            forall|k: int| 0 <= k < split_on(s@.subrange(start as int, s@.len() as int), sep).len() ==>
                #[trigger] split_on(s@.subrange(start as int, s@.len() as int), sep)[k] == split_on(s@, sep)[r@.len() + k],
        decreases s.len() - i,
    {
        if s[i] == sep {
            let ghost rest = s@.subrange(start as int, s@.len() as int);
            proof {
                lemma_index_of_is(rest, sep, i - start);
                assert(rest.subrange(0, i - start) =~= cur@);
                assert(rest.subrange(i - start + 1, rest.len() as int) =~= s@.subrange(i + 1, s@.len() as int));
                assert(split_on(rest, sep) == seq![cur@] + split_on(s@.subrange(i + 1, s@.len() as int), sep));
                assert(split_on(rest, sep)[0] == cur@);
                assert(split_on(rest, sep)[0] == split_on(s@, sep)[r@.len() as int + 0]);
            }
            let piece = cur;
            r.push(piece);
            cur = Vec::new();
            start = i + 1;
            proof {
                let rest2 = s@.subrange(start as int, s@.len() as int);
                assert forall|k: int| 0 <= k < split_on(rest2, sep).len() implies
                    #[trigger] split_on(rest2, sep)[k] == split_on(s@, sep)[r@.len() + k] by {
                    assert(split_on(rest, sep)[k + 1] == split_on(rest2, sep)[k]);
                }
            }
        } else {
            cur.push(s[i]);
            assert(cur@ =~= s@.subrange(start as int, i + 1));
        }
        i = i + 1;
    }
    let ghost rest = s@.subrange(start as int, s@.len() as int);
    proof {
        assert(rest =~= cur@);
        lemma_index_of_none(rest, sep);
        assert(split_on(rest, sep) == seq![rest]);
        assert(split_on(rest, sep)[0] == split_on(s@, sep)[r@.len() as int + 0]);
    }
    r.push(cur);
    r
}

/// The characters as an owned string.
pub fn chars_to_string(v: &Vec<char>) -> (r: String)
    ensures
        r@ == v@,
{
    let mut r = String::new();
    let mut i: usize = 0;
    while i < v.len()
        invariant
            i <= v.len(),
            r@ == v@.take(i as int),
        decreases v.len() - i,
    {
        push_char(&mut r, v[i]);
        assert(v@.take(i + 1) =~= v@.take(i as int).push(v@[i as int]));
        i = i + 1;
    }
    assert(v@.take(v.len() as int) =~= v@);
    r
}

/// `s` without any number of trailing copies of `p` (as `str::trim_end_matches`).
pub open spec fn trim_end_all(s: Seq<char>, p: Seq<char>) -> Seq<char>
    decreases s.len(),
{
    if p.len() > 0 && p.len() <= s.len() && s.subrange(s.len() - p.len(), s.len() as int) == p {
        trim_end_all(s.subrange(0, s.len() - p.len()), p)
    } else {
        s
    }
}

/// Removes any number of trailing copies of `p`.
pub fn trim_end_matches(s: &Vec<char>, p: &Vec<char>) -> (r: Vec<char>)
    ensures
        r@ == trim_end_all(s@, p@),
{
    let mut n = s.len();
    if p.len() == 0 {
        return s.clone();
    }
    assert(s@.subrange(0, n as int) =~= s@);
    while p.len() <= n && ends_at(s, n, p)
        invariant
            n <= s.len(),
            p.len() > 0,
            trim_end_all(s@, p@) == trim_end_all(s@.subrange(0, n as int), p@),
        decreases n,
    {
        proof {
            let t = s@.subrange(0, n as int);
            assert(t.subrange(t.len() - p.len(), t.len() as int) =~= s@.subrange(n - p.len(), n as int));
            assert(t.subrange(0, t.len() - p.len()) =~= s@.subrange(0, n - p.len()));
        }
        n = n - p.len();
    }
    let mut r: Vec<char> = Vec::new();
    let mut i: usize = 0;
    while i < n
        invariant
            n <= s.len(),
            i <= n,
            r@ == s@.subrange(0, i as int),
        decreases n - i,
    {
        r.push(s[i]);
        assert(r@ =~= s@.subrange(0, i + 1));
        i = i + 1;
    }
    proof {
        let t = s@.subrange(0, n as int);
        if p.len() <= n {
            assert(t.subrange(t.len() - p.len(), t.len() as int) =~= s@.subrange(n - p.len(), n as int));
        }
    }
    r
}

/// Whether `s[n - p.len()..n]` equals `p`.
fn ends_at(s: &Vec<char>, n: usize, p: &Vec<char>) -> (r: bool)
    requires
        p.len() <= n <= s.len(),
    ensures
        r == (s@.subrange(n - p.len(), n as int) == p@),
{
    let base = n - p.len();
    let mut i: usize = 0;
    while i < p.len()
        invariant
            p.len() <= n <= s.len(),
            base == n - p.len(),
            i <= p.len(),
            forall|j: int| 0 <= j < i ==> s@[base + j] == p@[j],
        decreases p.len() - i,
    {
        if s[base + i] != p[i] {
            assert(s@.subrange(base as int, n as int)[i as int] != p@[i as int]);
            return false;
        }
        i = i + 1;
    }
    assert(s@.subrange(base as int, n as int) =~= p@);
    true
}

/// The position of the last occurrence of `p` in `s`.
pub open spec fn last_occ(s: Seq<char>, p: Seq<char>) -> Option<int>
    decreases s.len(),
{
    if p.len() <= s.len() && s.subrange(s.len() - p.len(), s.len() as int) == p {
        Some(s.len() - p.len())
    } else if s.len() == 0 {
        None
    } else {
        last_occ(s.drop_last(), p)
    }
}

proof fn lemma_last_occ_range(s: Seq<char>, p: Seq<char>)
    ensures
        last_occ(s, p) matches Some(k) ==> 0 <= k && k + p.len() <= s.len()
            && s.subrange(k, k + p.len()) == p,
    decreases s.len(),
{
    if p.len() <= s.len() && s.subrange(s.len() - p.len(), s.len() as int) == p {
    } else if s.len() == 0 {
    } else {
        lemma_last_occ_range(s.drop_last(), p);
        if let Some(k) = last_occ(s.drop_last(), p) {
            assert(s.drop_last().subrange(k, k + p.len()) =~= s.subrange(k, k + p.len()));
        }
    }
}

/// The position of the last occurrence of `p` in `s`.
pub fn find_last(s: &Vec<char>, p: &Vec<char>) -> (r: Option<usize>)
    ensures
        match r {
            Some(k) => last_occ(s@, p@) == Some(k as int),
            None => last_occ(s@, p@) is None,
        },
{
    let mut n = s.len();
    assert(s@.subrange(0, n as int) =~= s@);
    loop
        invariant
            n <= s.len(),
            last_occ(s@, p@) == last_occ(s@.subrange(0, n as int), p@),
        decreases n,
    {
        let ghost t = s@.subrange(0, n as int);
        if p.len() <= n && ends_at(s, n, p) {
            assert(t.subrange(t.len() - p.len(), t.len() as int) =~= s@.subrange(n - p.len(), n as int));
            return Some(n - p.len());
        }
        proof {
            if p.len() <= n {
                assert(t.subrange(t.len() - p.len(), t.len() as int) =~= s@.subrange(n - p.len(), n as int));
            }
        }
        if n == 0 {
            return None;
        }
        assert(t.drop_last() =~= s@.subrange(0, n - 1));
        n = n - 1;
    }
}

pub proof fn lemma_split_nonempty(s: Seq<char>, c: char)
    ensures
        split_on(s, c).len() >= 1,
    decreases s.len(),
{
    match index_of(s, c) {
        None => {},
        Some(k) => if 0 <= k < s.len() {
            lemma_split_nonempty(s.subrange(k + 1, s.len() as int), c);
        },
    }
}

/// Why a repository reference could not be read.
#[derive(Clone, Copy, Debug, PartialEq, Eq, Structural)]
pub enum RepoUrlError {
    /// An SSH reference without `owner/repo` after the colon.
    Ssh,
    /// A GitHub URL without `owner/repo` after `github.com/`.
    GitHub,
    /// Neither a URL nor `owner/repo`.
    Short,
    /// An empty owner or repository name.
    Empty,
}

/// The reference with surrounding whitespace, trailing slashes and trailing
/// `.git` removed.
pub open spec fn cleaned_url(url: Seq<char>) -> Seq<char> {
    trim_end_all(trim_end_all(trimmed(url), "/"@), ".git"@)
}

/// The owner and repository name of a reference, or why there are none.
pub open spec fn repo_url_spec(url: Seq<char>) -> Result<(Seq<char>, Seq<char>), RepoUrlError> {
    let c = cleaned_url(url);
    let parsed: Result<(Seq<char>, Seq<char>), RepoUrlError> = if occurs_in(":"@, c) && is_prefix(
        "git@"@,
        c,
    ) {
        let pieces = split_on(c, ':');
        let parts = split_on(pieces.last(), '/');
        if parts.len() >= 2 {
            Ok((parts[parts.len() - 2], parts[parts.len() - 1]))
        } else {
            Err(RepoUrlError::Ssh)
        }
    } else if last_occ(c, "github.com/"@) is Some {
        let after = c.subrange(last_occ(c, "github.com/"@)->0 + "github.com/"@.len(), c.len() as int);
        let parts = split_on(after, '/');
        if parts.len() >= 2 {
            Ok((parts[0], parts[1]))
        } else {
            Err(RepoUrlError::GitHub)
        }
    } else {
        let parts = split_on(c, '/');
        if parts.len() == 2 {
            Ok((parts[0], parts[1]))
        } else {
            Err(RepoUrlError::Short)
        }
    };
    match parsed {
        Ok((o, r)) => if o.len() == 0 || r.len() == 0 {
            Err(RepoUrlError::Empty)
        } else {
            Ok((o, r))
        },
        Err(e) => Err(e),
    }
}

/// No piece of `s` split on `c` holds `c`.
pub proof fn lemma_split_pieces_lack_sep(s: Seq<char>, c: char)
    ensures
        forall|i: int, t: int|
            0 <= i < split_on(s, c).len() && 0 <= t < split_on(s, c)[i].len() ==> #[trigger] split_on(s, c)[i][t]
                != c,
    decreases s.len(),
{
    lemma_index_of(s, c);
    match index_of(s, c) {
        None => {},
        Some(k) => {
            let rest = s.subrange(k + 1, s.len() as int);
            lemma_split_pieces_lack_sep(rest, c);
            assert forall|i: int, t: int|
                0 <= i < split_on(s, c).len() && 0 <= t < split_on(s, c)[i].len() implies #[trigger] split_on(
                s,
                c,
            )[i][t] != c by {
                if i > 0 {
                    assert(split_on(s, c)[i] == split_on(rest, c)[i - 1]);
                }
            }
        },
    }
}

/// A reference that is read gives a non-empty owner and name, neither
/// holding a slash.
pub proof fn lemma_repo_parts_plain(url: Seq<char>)
    ensures
        repo_url_spec(url) matches Ok((o, n)) ==> o.len() > 0 && n.len() > 0 && !o.contains('/') && !n.contains(
            '/',
        ),
{
    let c = cleaned_url(url);
    lemma_split_nonempty(c, '/');
    lemma_split_pieces_lack_sep(c, '/');
    lemma_split_nonempty(c, ':');
    let pieces = split_on(c, ':');
    lemma_split_pieces_lack_sep(pieces.last(), '/');
    if last_occ(c, "github.com/"@) is Some {
        let after = c.subrange(last_occ(c, "github.com/"@)->0 + "github.com/"@.len(), c.len() as int);
        lemma_split_pieces_lack_sep(after, '/');
    }
    if let Ok((o, n)) = repo_url_spec(url) {
        assert(!o.contains('/')) by {
            if o.contains('/') {
                let t = choose|t: int| 0 <= t < o.len() && o[t] == '/';
            }
        }
        assert(!n.contains('/')) by {
            if n.contains('/') {
                let t = choose|t: int| 0 <= t < n.len() && n[t] == '/';
            }
        }
    }
}

/// A character allowed in a plain owner or repository name: an ASCII
/// letter or digit, `_` or `-`.
pub open spec fn is_name_char(ch: char) -> bool {
    ('a' <= ch && ch <= 'z') || ('A' <= ch && ch <= 'Z') || ('0' <= ch && ch <= '9') || ch == '_' || ch == '-'
}

/// A non-empty name of such characters.
pub open spec fn is_plain_name(s: Seq<char>) -> bool {
    s.len() > 0 && forall|i: int| 0 <= i < s.len() ==> is_name_char(#[trigger] s[i])
}

proof fn lemma_trimmed_keeps(s: Seq<char>)
    requires
        s.len() > 0,
        !is_white_space(s[0]),
        !is_white_space(s.last()),
    ensures
        trimmed(s) == s,
{
    assert(trim_start_ws(s) == s);
    assert(trim_end_ws(s) == s);
}

proof fn lemma_trim_end_all_keeps(s: Seq<char>, p: Seq<char>, t: int)
    requires
        p.len() > 0,
        0 <= t < p.len(),
        p.len() <= s.len() ==> s[s.len() - p.len() + t] != p[t],
    ensures
        trim_end_all(s, p) == s,
{
    if p.len() <= s.len() {
        assert(s.subrange(s.len() - p.len(), s.len() as int)[t] != p[t]);
    }
}

proof fn lemma_trim_end_all_strip(s: Seq<char>, p: Seq<char>)
    requires
        p.len() > 0,
    ensures
        trim_end_all(s + p, p) == trim_end_all(s, p),
{
    let sp = s + p;
    assert(sp.subrange(sp.len() - p.len(), sp.len() as int) =~= p);
    assert(sp.subrange(0, sp.len() - p.len()) =~= s);
}

/// `last_occ` finds `k` when `p` occurs at `k` and at no later position.
proof fn lemma_last_occ_at(s: Seq<char>, p: Seq<char>, k: int)
    requires
        0 <= k,
        k + p.len() <= s.len(),
        s.subrange(k, k + p.len()) == p,
        forall|j: int| k < j && j + p.len() <= s.len() ==> #[trigger] s.subrange(j, j + p.len()) != p,
    ensures
        last_occ(s, p) == Some(k),
    decreases s.len(),
{
    let e: int = s.len() - p.len();
    if p.len() <= s.len() && s.subrange(e, s.len() as int) == p {
        assert(s.subrange(e, e + p.len()) == s.subrange(e, s.len() as int));
        assert(k == e);
    } else {
        assert(k + p.len() < s.len());
        let d = s.drop_last();
        assert forall|j: int| k < j && j + p.len() <= d.len() implies #[trigger] d.subrange(j, j + p.len()) != p by {
            assert(d.subrange(j, j + p.len()) =~= s.subrange(j, j + p.len()));
        }
        assert(d.subrange(k, k + p.len()) =~= s.subrange(k, k + p.len()));
        lemma_last_occ_at(d, p, k);
        assert(last_occ(s, p) == last_occ(d, p));
    }
}

/// `last_occ` finds nothing when `p` occurs nowhere.
proof fn lemma_last_occ_none(s: Seq<char>, p: Seq<char>)
    requires
        forall|j: int| 0 <= j && j + p.len() <= s.len() ==> #[trigger] s.subrange(j, j + p.len()) != p,
    ensures
        last_occ(s, p) is None,
    decreases s.len(),
{
    let e: int = s.len() - p.len();
    if p.len() <= s.len() {
        assert(s.subrange(e, e + p.len()) == s.subrange(e, s.len() as int));
    }
    if s.len() > 0 {
        let d = s.drop_last();
        assert forall|j: int| 0 <= j && j + p.len() <= d.len() implies #[trigger] d.subrange(j, j + p.len()) != p by {
            assert(d.subrange(j, j + p.len()) =~= s.subrange(j, j + p.len()));
        }
        lemma_last_occ_none(d, p);
    }
}

/// Split on `c`, `a c b` is `a` and `b` when neither holds `c`.
proof fn lemma_split_two(a: Seq<char>, b: Seq<char>, c: char)
    requires
        forall|t: int| 0 <= t < a.len() ==> a[t] != c,
        forall|t: int| 0 <= t < b.len() ==> b[t] != c,
    ensures
        split_on(a + seq![c] + b, c) == seq![a, b],
{
    let s = a + seq![c] + b;
    lemma_index_of(s, c);
    lemma_index_of(b, c);
    assert(s[a.len() as int] == c);
    if let Some(k) = index_of(s, c) {
        if k < a.len() {
            assert(s[k] == a[k]);
        }
    }
    assert(index_of(s, c) == Some(a.len() as int));
    assert(s.subrange(0, a.len() as int) =~= a);
    assert(s.subrange(a.len() as int + 1, s.len() as int) =~= b);
    assert(split_on(b, c) == seq![b]);
    assert(seq![a] + seq![b] =~= seq![a, b]);
}

/// `owner/repo` is read as that owner and name.
pub proof fn lemma_short_form_round_trip(o: Seq<char>, n: Seq<char>)
    requires
        is_plain_name(o),
        is_plain_name(n),
    ensures
        repo_url_spec(o + "/"@ + n) == Ok::<(Seq<char>, Seq<char>), RepoUrlError>((o, n)),
{
    reveal_strlit("/");
    reveal_strlit(".git");
    reveal_strlit(":");
    reveal_strlit("github.com/");
    let u = o + "/"@ + n;
    assert(u =~= o + seq!['/'] + n);
    assert forall|t: int| 0 <= t < u.len() implies is_name_char(#[trigger] u[t]) || u[t] == '/' by {
        if t < o.len() {
            assert(u[t] == o[t]);
        } else if t > o.len() {
            assert(u[t] == n[t - o.len() - 1]);
        }
    }
    assert(u[0] == o[0]);
    assert(u.last() == n.last());
    lemma_trimmed_keeps(u);
    lemma_trim_end_all_keeps(u, "/"@, 0);
    lemma_trim_end_all_keeps(u, ".git"@, 0);
    assert(cleaned_url(u) == u);
    assert(!occurs_in(":"@, u)) by {
        if occurs_in(":"@, u) {
            let k = choose|k: int| 0 <= k && k + ":"@.len() <= u.len() && #[trigger] u.subrange(k, k + ":"@.len()) == ":"@;
            assert(u.subrange(k, k + 1)[0] == u[k]);
        }
    }
    assert forall|j: int| 0 <= j && j + "github.com/"@.len() <= u.len() implies #[trigger] u.subrange(
        j,
        j + "github.com/"@.len(),
    ) != "github.com/"@ by {
        assert(u.subrange(j, j + 11)[6] == u[j + 6]);
    }
    lemma_last_occ_none(u, "github.com/"@);
    assert forall|t: int| 0 <= t < o.len() implies o[t] != '/' by {
        assert(is_name_char(o[t]));
    }
    assert forall|t: int| 0 <= t < n.len() implies n[t] != '/' by {
        assert(is_name_char(n[t]));
    }
    lemma_split_two(o, n, '/');
}

/// Cleaning ` https://github.com/mid.git/ ` leaves `https://github.com/mid`
/// when `mid` holds no `.` and ends in a name character.
proof fn lemma_https_cleaned(mid: Seq<char>)
    requires
        mid.len() > 0,
        forall|i: int| 0 <= i < mid.len() ==> #[trigger] mid[i] != '.',
        is_name_char(mid.last()),
    ensures
        cleaned_url(" https://github.com/"@ + mid + ".git/ "@) == "https://github.com/"@ + mid,
{
    reveal_strlit(" https://github.com/");
    reveal_strlit("https://github.com/");
    reveal_strlit("/");
    reveal_strlit(" ");
    reveal_strlit(".git/ ");
    reveal_strlit(".git");
    let g = "https://github.com/"@ + mid;
    let u = " https://github.com/"@ + mid + ".git/ "@;
    let t = g + ".git"@ + "/"@;
    let u1 = u.drop_first();
    assert(u1 =~= t + " "@);
    assert(u1[0] == 'h');
    assert(trim_start_ws(u1) == u1);
    assert(trim_start_ws(u) == u1);
    let u2 = u1.drop_last();
    assert(u2 =~= t);
    assert(u2.last() == '/');
    assert(trim_end_ws(u2) == u2);
    assert(trim_end_ws(u1) == u2);
    assert(trimmed(u) == t);
    lemma_trim_end_all_strip(g + ".git"@, "/"@);
    assert((g + ".git"@).last() == 't');
    lemma_trim_end_all_keeps(g + ".git"@, "/"@, 0);
    lemma_trim_end_all_strip(g, ".git"@);
    assert forall|i: int| 15 <= i < g.len() implies #[trigger] g[i] != '.' by {
        if i >= 19 {
            assert(g[i] == mid[i - 19]);
        }
    }
    lemma_trim_end_all_keeps(g, ".git"@, 0);
}

/// `https://github.com/owner/repo.git/`, with spaces around, is read as that
/// owner and name.
pub proof fn lemma_https_form_round_trip(o: Seq<char>, n: Seq<char>)
    requires
        is_plain_name(o),
        is_plain_name(n),
    ensures
        repo_url_spec(" https://github.com/"@ + o + "/"@ + n + ".git/ "@) == Ok::<
            (Seq<char>, Seq<char>),
            RepoUrlError,
        >((o, n)),
{
    reveal_strlit("https://github.com/");
    reveal_strlit("/");
    reveal_strlit("git@");
    reveal_strlit("github.com/");
    let mid = o + "/"@ + n;
    let g = "https://github.com/"@ + mid;
    let u = " https://github.com/"@ + o + "/"@ + n + ".git/ "@;
    assert(u =~= " https://github.com/"@ + mid + ".git/ "@);
    assert(mid =~= o + seq!['/'] + n);
    assert forall|i: int| 0 <= i < mid.len() implies is_name_char(#[trigger] mid[i]) || mid[i] == '/' by {
        if i < o.len() {
            assert(mid[i] == o[i]);
        } else if i > o.len() {
            assert(mid[i] == n[i - o.len() - 1]);
        }
    }
    assert(mid.last() == n.last());
    lemma_https_cleaned(mid);
    assert(g.subrange(0, 4)[0] == 'h');
    assert(!is_prefix("git@"@, g));
    assert(g.subrange(8, 19) =~= "github.com/"@);
    assert forall|j: int| 8 < j && j + "github.com/"@.len() <= g.len() implies #[trigger] g.subrange(
        j,
        j + "github.com/"@.len(),
    ) != "github.com/"@ by {
        assert(g.subrange(j, j + 11)[6] == g[j + 6]);
        if j + 6 >= 19 {
            assert(g[j + 6] == mid[j + 6 - 19]);
        }
    }
    lemma_last_occ_at(g, "github.com/"@, 8);
    assert(g.subrange(19, g.len() as int) =~= mid);
    assert forall|i: int| 0 <= i < o.len() implies o[i] != '/' by {
        assert(is_name_char(o[i]));
    }
    assert forall|i: int| 0 <= i < n.len() implies n[i] != '/' by {
        assert(is_name_char(n[i]));
    }
    lemma_split_two(o, n, '/');
}

/// `git@github.com:owner/repo.git` is read as that owner and name.
pub proof fn lemma_ssh_form_round_trip(o: Seq<char>, n: Seq<char>)
    requires
        is_plain_name(o),
        is_plain_name(n),
    ensures
        repo_url_spec("git@github.com:"@ + o + "/"@ + n + ".git"@) == Ok::<(Seq<char>, Seq<char>), RepoUrlError>(
            (o, n),
        ),
{
    reveal_strlit("git@github.com:");
    reveal_strlit("git@github.com");
    reveal_strlit("/");
    reveal_strlit(".git");
    reveal_strlit(":");
    reveal_strlit("git@");
    let lit = "git@github.com:"@;
    let mid = o + "/"@ + n;
    let g = lit + mid;
    let u = "git@github.com:"@ + o + "/"@ + n + ".git"@;
    assert(u =~= g + ".git"@);
    assert(mid =~= o + seq!['/'] + n);
    assert forall|i: int| 0 <= i < mid.len() implies is_name_char(#[trigger] mid[i]) || mid[i] == '/' by {
        if i < o.len() {
            assert(mid[i] == o[i]);
        } else if i > o.len() {
            assert(mid[i] == n[i - o.len() - 1]);
        }
    }
    assert(u[0] == 'g');
    assert(u.last() == 't');
    lemma_trimmed_keeps(u);
    lemma_trim_end_all_keeps(u, "/"@, 0);
    lemma_trim_end_all_strip(g, ".git"@);
    assert forall|i: int| 11 <= i < g.len() implies #[trigger] g[i] != '.' by {
        if i >= 15 {
            assert(g[i] == mid[i - 15]);
        }
    }
    lemma_trim_end_all_keeps(g, ".git"@, 0);
    assert(cleaned_url(u) == g);
    assert(g.subrange(14int, 14int + ":"@.len()) =~= ":"@);
    assert(occurs_in(":"@, g));
    assert(g.subrange(0, 4) =~= "git@"@);
    assert(is_prefix("git@"@, g));
    assert(g =~= "git@github.com"@ + seq![':'] + mid);
    assert forall|i: int| 0 <= i < mid.len() implies mid[i] != ':' by {
        assert(is_name_char(mid[i]) || mid[i] == '/');
    }
    lemma_split_two("git@github.com"@, mid, ':');
    assert forall|i: int| 0 <= i < o.len() implies o[i] != '/' by {
        assert(is_name_char(o[i]));
    }
    assert forall|i: int| 0 <= i < n.len() implies n[i] != '/' by {
        assert(is_name_char(n[i]));
    }
    lemma_split_two(o, n, '/');
}

/// The characters of `v` from position `from` on.
pub fn chars_from(v: &Vec<char>, from: usize) -> (r: Vec<char>)
    requires
        from <= v.len(),
    ensures
        r@ == v@.subrange(from as int, v@.len() as int),
{
    let mut r: Vec<char> = Vec::new();
    let mut i = from;
    while i < v.len()
        invariant
            from <= i <= v.len(),
            r@ == v@.subrange(from as int, i as int),
        decreases v.len() - i,
    {
        r.push(v[i]);
        assert(r@ =~= v@.subrange(from as int, i + 1));
        i = i + 1;
    }
    r
}

/// Reads the owner and repository name of `owner/repo`,
/// `https://github.com/owner/repo(.git)` or `git@github.com:owner/repo(.git)`.
pub fn parse_repo_parts(url: &str) -> (r: Result<(String, String), RepoUrlError>)
    ensures
        match r {
            Ok((o, n)) => repo_url_spec(url@) == Ok::<(Seq<char>, Seq<char>), RepoUrlError>((o@, n@)),
            Err(e) => repo_url_spec(url@) == Err::<(Seq<char>, Seq<char>), RepoUrlError>(e),
        },
{
    let t = trim(url);
    let chars = str_chars(t);
    let slash = str_chars("/");
    let git = str_chars(".git");
    let c1 = trim_end_matches(&chars, &slash);
    let c = trim_end_matches(&c1, &git);
    let colon = str_chars(":");
    let at = str_chars("git@");
    let gh = str_chars("github.com/");
    let ghost cs = c@;
    assert(cs == cleaned_url(url@));
    let owner: Vec<char>;
    let name: Vec<char>;
    if chars_contain(&c, &colon) && chars_start_with(&c, &at) {
        let pieces = split_chars(&c, ':');
        proof {
            lemma_split_nonempty(cs, ':');
        }
        let last = &pieces[pieces.len() - 1];
        assert(last@ == split_on(cs, ':').last());
        let parts = split_chars(last, '/');
        if parts.len() >= 2 {
            owner = chars_from(&parts[parts.len() - 2], 0);
            name = chars_from(&parts[parts.len() - 1], 0);
            assert(owner@ =~= parts@[parts.len() - 2]@);
            assert(name@ =~= parts@[parts.len() - 1]@);
        } else {
            return Err(RepoUrlError::Ssh);
        }
    } else {
        match find_last(&c, &gh) {
            Some(k) => {
                proof {
                    lemma_last_occ_range(cs, gh@);
                }
                assert(k + gh@.len() <= c@.len());
                let glen = gh.len();
                assert(k + glen <= c.len());
                let start: usize = k + glen;
                let after = chars_from(&c, start);
                let parts = split_chars(&after, '/');
                if parts.len() >= 2 {
                    owner = chars_from(&parts[0], 0);
                    name = chars_from(&parts[1], 0);
                    assert(owner@ =~= parts@[0]@);
                    assert(name@ =~= parts@[1]@);
                } else {
                    return Err(RepoUrlError::GitHub);
                }
            },
            None => {
                let parts = split_chars(&c, '/');
                if parts.len() == 2 {
                    owner = chars_from(&parts[0], 0);
                    name = chars_from(&parts[1], 0);
                    assert(owner@ =~= parts@[0]@);
                    assert(name@ =~= parts@[1]@);
                } else {
                    return Err(RepoUrlError::Short);
                }
            },
        }
    }
    if owner.len() == 0 || name.len() == 0 {
        return Err(RepoUrlError::Empty);
    }
    Ok((chars_to_string(&owner), chars_to_string(&name)))
}

/// The message the command line gives for a reference it cannot read.
pub open spec fn repo_url_message(url: Seq<char>, e: RepoUrlError) -> Seq<char> {
    match e {
        RepoUrlError::Ssh | RepoUrlError::GitHub => "Cannot parse: "@ + url,
        RepoUrlError::Short => "Use owner/repo or full URL: "@ + url,
        RepoUrlError::Empty => "Invalid: "@ + url,
    }
}

/// Reads the owner and repository name of a repository reference; on failure
/// the error names the reference.
pub fn parse_repo_url(url: &str) -> (r: Result<(String, String), String>)
    ensures
        match repo_url_spec(url@) {
            Ok((o, n)) => r matches Ok((ro, rn)) && ro@ == o && rn@ == n,
            Err(e) => r matches Err(m) && m@ == repo_url_message(url@, e),
        },
{
    match parse_repo_parts(url) {
        Ok(p) => Ok(p),
        Err(e) => {
            let mut m = String::new();
            match e {
                RepoUrlError::Ssh | RepoUrlError::GitHub => m.append("Cannot parse: "),
                RepoUrlError::Short => m.append("Use owner/repo or full URL: "),
                RepoUrlError::Empty => m.append("Invalid: "),
            }
            m.append(url);
            Err(m)
        },
    }
}

} // verus!
