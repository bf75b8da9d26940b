//! The command line's configuration logic: tool checks, comb names, the order
//! of combs, branches read from `git` and `gh`.

use vstd::prelude::*;

use crate::model::{Comb, HiveInfo};
use crate::rank::{keys_view, rank_positions, rank_sorted, RankKey, RankView};
use crate::repo::{find_char, index_of, split_chars, split_on, chars_to_string};
use crate::text::{
    from_utf8_lossy, is_prefix, lowercase_of, str_chars, str_eq, str_starts_with, to_lowercase, to_owned_string, trim,
    trimmed, utf8_lossy,
};

verus! {

/// The sidebar width used when the configuration names none.
pub fn default_sidebar_width() -> (r: u16)
    ensures
        r == 28,
{
    28
}

/// What the settings screen shows about the tools beehive needs.
pub struct PreflightResult {
    /// The trimmed output of `git --version`, if git ran.
    pub git: Option<String>,
    /// The trimmed first line of `gh --version`, if gh ran.
    pub gh: Option<String>,
    /// Whether gh ran and `gh auth status` succeeded.
    pub gh_auth: bool,
}

/// A line without the carriage return of a `\r\n` ending.
pub open spec fn strip_cr(s: Seq<char>) -> Seq<char> {
    if s.len() > 0 && s.last() == '\r' {
        s.drop_last()
    } else {
        s
    }
}

/// The first line of a text as `str::lines` yields it (empty for an empty text).
pub open spec fn first_line(s: Seq<char>) -> Seq<char> {
    match index_of(s, '\n') {
        Some(k) => strip_cr(s.subrange(0, k)),
        None => s,
    }
}

fn strip_cr_chars(v: &Vec<char>, n: usize) -> (r: Vec<char>)
    requires
        n <= v.len(),
    ensures
        r@ == strip_cr(v@.subrange(0, n as int)),
{
    let mut end = n;
    if n > 0 && v[n - 1] == '\r' {
        end = n - 1;
    }
    let mut r: Vec<char> = Vec::new();
    let mut i: usize = 0;
    while i < end
        invariant
            end <= n <= v.len(),
            i <= end,
            r@ == v@.subrange(0, i as int),
        decreases end - i,
    {
        r.push(v[i]);
        assert(r@ =~= v@.subrange(0, i + 1));
        i = i + 1;
    }
    proof {
        let s = v@.subrange(0, n as int);
        if n > 0 && v@[n - 1] == '\r' {
            assert(s.drop_last() =~= v@.subrange(0, end as int));
        } else {
            assert(s =~= v@.subrange(0, end as int));
        }
    }
    r
}

/// The first line of `s`.
pub fn text_first_line(s: &str) -> (r: String)
    ensures
        r@ == first_line(s@),
{
    let v = str_chars(s);
    proof {
        crate::repo::lemma_index_of(v@, '\n');
    }
    match find_char(&v, '\n') {
        Some(k) => {
            let line = strip_cr_chars(&v, k);
            chars_to_string(&line)
        },
        None => {
            let r = chars_to_string(&v);
            r
        },
    }
}

/// Builds the settings screen's tool report from what the checks printed:
/// `git_version` and `gh_version` are the outputs of `git --version` and
/// `gh --version` when they ran, `gh_auth_ok` whether `gh auth status`
/// succeeded (it only counts when gh ran).
pub fn preflight(git_version: Option<String>, gh_version: Option<String>, gh_auth_ok: bool) -> (r:
    PreflightResult)
    ensures
        match git_version {
            Some(v) => r.git matches Some(g) && g@ == trimmed(v@),
            None => r.git is None,
        },
        match gh_version {
            Some(v) => r.gh matches Some(g) && g@ == trimmed(first_line(v@)),
            None => r.gh is None,
        },
        r.gh_auth == (gh_version is Some && gh_auth_ok),
{
    let git = match git_version {
        Some(v) => Some(to_owned_string(trim(v.as_str()))),
        None => None,
    };
    let has_gh = gh_version.is_some();
    let gh = match gh_version {
        Some(v) => {
            let line = text_first_line(v.as_str());
            Some(to_owned_string(trim(line.as_str())))
        },
        None => None,
    };
    PreflightResult { git, gh, gh_auth: has_gh && gh_auth_ok }
}

/// The lines of a text as `str::lines` yields them: split at `\n`, a `\r`
/// before a `\n` dropped, and no empty line after a final `\n`.
pub open spec fn lines_of(s: Seq<char>) -> Seq<Seq<char>> {
    let pieces = split_on(s, '\n');
    let n: int = if s.len() == 0 || s.last() == '\n' {
        pieces.len() - 1
    } else {
        pieces.len() as int
    };
    Seq::new(
        n as nat,
        |i: int|
            if i < pieces.len() - 1 {
                strip_cr(pieces[i])
            } else {
                pieces[i]
            },
    )
}

/// The lines of `s`.
pub fn text_lines(s: &str) -> (r: Vec<String>)
    ensures
        r@.len() == lines_of(s@).len(),
        forall|i: int| 0 <= i < r@.len() ==> #[trigger] r@[i]@ == lines_of(s@)[i],
{
    let v = str_chars(s);
    let pieces = split_chars(&v, '\n');
    proof {
        crate::repo::lemma_split_nonempty(v@, '\n');
    }
    let n: usize = if v.len() == 0 || v[v.len() - 1] == '\n' {
        pieces.len() - 1
    } else {
        pieces.len()
    };
    let mut r: Vec<String> = Vec::new();
    let mut i: usize = 0;
    while i < n
        invariant
            n <= pieces.len(),
            pieces@.len() == split_on(v@, '\n').len(),
            forall|k: int| 0 <= k < pieces@.len() ==> #[trigger] pieces@[k]@ == split_on(v@, '\n')[k],
            n == lines_of(s@).len(),
            v@ == s@,
            i <= n,
            r@.len() == i,
            forall|k: int| 0 <= k < i ==> #[trigger] r@[k]@ == lines_of(s@)[k],
        decreases n - i,
    {
        let text = if i + 1 < pieces.len() {
            let line = strip_cr_chars(&pieces[i], pieces[i].len());
            proof {
                assert(pieces@[i as int]@.subrange(0, pieces@[i as int]@.len() as int)
                    =~= pieces@[i as int]@);
            }
            chars_to_string(&line)
        } else {
            chars_to_string(&pieces[i])
        };
        r.push(text);
        i = i + 1;
    }
    r
}

/// The `gh api` path that lists a repository's branches.
pub open spec fn branches_api_path_text(owner: Seq<char>, repo: Seq<char>) -> Seq<char> {
    "repos/"@ + owner + "/"@ + repo + "/branches?per_page=100"@
}

/// The `gh api` path that lists a repository's branches.
pub fn branches_api_path(owner: &str, repo: &str) -> (r: String)
    ensures
        r@ == branches_api_path_text(owner@, repo@),
{
    let mut r = String::new();
    r.append("repos/");
    r.append(owner);
    r.append("/");
    r.append(repo);
    r.append("/branches?per_page=100");
    r
}

/// The branches `gh api` listed, one per line of `output`, and the hive's
/// default branch (`main` when the hive names none).
pub fn list_branches(output: &str, default_branch: Option<String>) -> (r: (Vec<String>, String))
    ensures
        r.0@.len() == lines_of(output@).len(),
        forall|i: int| 0 <= i < r.0@.len() ==> #[trigger] r.0@[i]@ == lines_of(output@)[i],
        match default_branch {
            Some(b) => r.1@ == b@,
            None => r.1@ == "main"@,
        },
{
    let branches = text_lines(output);
    let d = match default_branch {
        Some(b) => b,
        None => to_owned_string("main"),
    };
    (branches, d)
}

/// What a command that ran reports: its standard output when it succeeded,
/// else its standard error, read as UTF-8 (invalid bytes replaced) and
/// trimmed.
pub fn command_result(success: bool, stdout: &[u8], stderr: &[u8]) -> (r: Result<String, String>)
    ensures
        success ==> (r matches Ok(o) && o@ == trimmed(utf8_lossy(stdout@))),
        !success ==> (r matches Err(e) && e@ == trimmed(utf8_lossy(stderr@))),
{
    if success {
        let text = from_utf8_lossy(stdout);
        Ok(to_owned_string(trim(text.as_str())))
    } else {
        let text = from_utf8_lossy(stderr);
        Err(to_owned_string(trim(text.as_str())))
    }
}

/// The branch `git rev-parse --abbrev-ref HEAD` reported: its standard output,
/// read as UTF-8 (invalid bytes replaced) and trimmed, when it succeeded.
pub fn get_git_branch(success: bool, stdout: &[u8]) -> (r: Option<String>)
    ensures
        success ==> (r matches Some(b) && b@ == trimmed(utf8_lossy(stdout@))),
        !success ==> r is None,
{
    if success {
        let text = from_utf8_lossy(stdout);
        Some(to_owned_string(trim(text.as_str())))
    } else {
        None
    }
}

/// The combs with each branch replaced by the branch found on disk, where one
/// was found (`branches[i]` belongs to `combs[i]`).
pub fn get_combs(combs: Vec<Comb>, branches: Vec<Option<String>>) -> (r: Vec<Comb>)
    requires
        branches.len() == combs.len(),
    ensures
        r@.len() == combs@.len(),
        forall|i: int|
            0 <= i < combs@.len() ==> #[trigger] r@[i] == (match branches@[i] {
                Some(b) => Comb { branch: r@[i].branch, ..combs@[i] },
                None => combs@[i],
            }),
        forall|i: int|
            0 <= i < combs@.len() ==> (match branches@[i] {
                Some(b) => #[trigger] r@[i].branch@ == b@,
                None => true,
            }),
{
    let mut out: Vec<Comb> = Vec::new();
    let mut rest = combs;
    let ghost orig = rest@;
    assert(orig.subrange(0, orig.len() as int) =~= orig);
    let mut i: usize = 0;
    while i < branches.len()
        invariant
            branches.len() == orig.len(),
            i <= orig.len(),
            rest@ == orig.subrange(i as int, orig.len() as int),
            out@.len() == i,
            forall|k: int|
                0 <= k < i ==> #[trigger] out@[k] == (match branches@[k] {
                    Some(b) => Comb { branch: out@[k].branch, ..orig[k] },
                    None => orig[k],
                }),
            forall|k: int|
                0 <= k < i ==> (match branches@[k] {
                    Some(b) => #[trigger] out@[k].branch@ == b@,
                    None => true,
                }),
        decreases orig.len() - i,
    {
        assert(rest@.len() > 0);
        let mut c = rest.remove(0);
        assert(c == orig[i as int]);
        assert(rest@ =~= orig.subrange(i + 1, orig.len() as int));
        match &branches[i] {
            Some(b) => {
                if !str_eq(b.as_str(), c.branch.as_str()) {
                    c.branch = b.clone();
                }
            },
            None => {},
        }
        out.push(c);
        i = i + 1;
    }
    out
}

/// The index of the first comb with id `id`.
pub open spec fn comb_index(combs: Seq<Comb>, id: Seq<char>) -> Option<int>
    decreases combs.len(),
{
    if combs.len() == 0 {
        None
    } else if combs[0].id@ == id {
        Some(0)
    } else {
        match comb_index(combs.drop_first(), id) {
            Some(k) => Some(k + 1),
            None => None,
        }
    }
}

pub proof fn lemma_comb_index(combs: Seq<Comb>, id: Seq<char>)
    ensures
        match comb_index(combs, id) {
            Some(k) => 0 <= k < combs.len() && combs[k].id@ == id && forall|t: int|
                0 <= t < k ==> combs[t].id@ != id,
            None => forall|t: int| 0 <= t < combs.len() ==> combs[t].id@ != id,
        },
    decreases combs.len(),
{
    if combs.len() > 0 && combs[0].id@ != id {
        lemma_comb_index(combs.drop_first(), id);
        assert forall|t: int| 0 < t < combs.len() implies combs[t] == combs.drop_first()[t - 1] by {}
    }
}

pub proof fn lemma_comb_index_is(combs: Seq<Comb>, id: Seq<char>, k: int)
    requires
        0 <= k < combs.len(),
        combs[k].id@ == id,
        forall|t: int| 0 <= t < k ==> combs[t].id@ != id,
    ensures
        comb_index(combs, id) == Some(k),
{
    lemma_comb_index(combs, id);
    match comb_index(combs, id) {
        Some(j) => {
            if j < k {
            } else if j > k {
            }
        },
        None => {},
    }
}

/// The combs reordered by `ids`: for each id in turn the first remaining comb
/// with that id is taken out and listed; the combs no id named follow in
/// their old order.
pub open spec fn reorder_spec(combs: Seq<Comb>, ids: Seq<String>) -> Seq<Comb>
    decreases ids.len(),
{
    if ids.len() == 0 {
        combs
    } else {
        match comb_index(combs, ids[0]@) {
            Some(p) => if 0 <= p < combs.len() {
                seq![combs[p]] + reorder_spec(combs.remove(p), ids.drop_first())
            } else {
                reorder_spec(combs, ids.drop_first())
            },
            None => reorder_spec(combs, ids.drop_first()),
        }
    }
}

/// Reordering keeps exactly the combs it was given: the result is a
/// permutation of the input.
pub proof fn lemma_reorder_permutes(combs: Seq<Comb>, ids: Seq<String>)
    ensures
        reorder_spec(combs, ids).to_multiset() =~= combs.to_multiset(),
    decreases ids.len(),
{
    broadcast use vstd::seq_lib::group_to_multiset_ensures;
    broadcast use vstd::multiset::group_multiset_axioms;

    if ids.len() > 0 {
        match comb_index(combs, ids[0]@) {
            Some(p) => if 0 <= p < combs.len() {
                lemma_reorder_permutes(combs.remove(p), ids.drop_first());
                vstd::seq_lib::lemma_multiset_commutative(
                    seq![combs[p]],
                    reorder_spec(combs.remove(p), ids.drop_first()),
                );
                assert(seq![combs[p]].to_multiset() =~= vstd::multiset::Multiset::singleton(combs[p])) by {
                    assert(seq![combs[p]] =~= Seq::<Comb>::empty().push(combs[p]));
                }
            } else {
                lemma_reorder_permutes(combs, ids.drop_first());
            },
            None => lemma_reorder_permutes(combs, ids.drop_first()),
        }
    }
}

/// Whether two texts are equal.
fn string_eq(a: &String, b: &String) -> (r: bool)
    ensures
        r == (a@ == b@),
{
    str_eq(a.as_str(), b.as_str())
}

/// The position of the first comb with the given id.
pub fn comb_position(combs: &Vec<Comb>, id: &String) -> (r: Option<usize>)
    ensures
        match r {
            Some(k) => comb_index(combs@, id@) == Some(k as int),
            None => comb_index(combs@, id@) is None,
        },
{
    let mut i: usize = 0;
    while i < combs.len()
        invariant
            i <= combs.len(),
            forall|t: int| 0 <= t < i ==> combs@[t].id@ != id@,
        decreases combs.len() - i,
    {
        if string_eq(&combs[i].id, id) {
            proof {
                lemma_comb_index_is(combs@, id@, i as int);
            }
            return Some(i);
        }
        i = i + 1;
    }
    proof {
        lemma_comb_index(combs@, id@);
    }
    None
}

/// Puts the combs in the order of `comb_ids`; combs whose id is not listed
/// (added meanwhile by another process) keep their order after the listed ones.
pub fn reorder_combs(combs: Vec<Comb>, comb_ids: &[String]) -> (r: Vec<Comb>)
    ensures
        r@ == reorder_spec(combs@, comb_ids@),
        r@.to_multiset() =~= combs@.to_multiset(),
{
    let ghost all = comb_ids@;
    let ghost start = combs@;
    let mut rest = combs;
    let mut ordered: Vec<Comb> = Vec::new();
    let mut k: usize = 0;
    assert(all.subrange(0, all.len() as int) =~= all);
    assert(ordered@ + reorder_spec(rest@, all) =~= reorder_spec(rest@, all));
    while k < comb_ids.len()
        invariant
            k <= comb_ids.len(),
            all == comb_ids@,
            reorder_spec(start, all) == ordered@ + reorder_spec(rest@, all.subrange(k as int, all.len() as int)),
        decreases comb_ids.len() - k,
    {
        let ghost tail = all.subrange(k as int, all.len() as int);
        assert(tail.drop_first() =~= all.subrange(k + 1, all.len() as int));
        assert(tail[0] == comb_ids@[k as int]);
        proof {
            lemma_comb_index(rest@, tail[0]@);
        }
        match comb_position(&rest, &comb_ids[k]) {
            Some(p) => {
                let ghost before = rest@;
                let c = rest.remove(p);
                ordered.push(c);
                assert(ordered@ =~= (ordered@.drop_last() + seq![before[p as int]]));
                assert(reorder_spec(before, tail) == seq![before[p as int]] + reorder_spec(
                    before.remove(p as int),
                    tail.drop_first(),
                ));
                assert(ordered@.drop_last() + (seq![before[p as int]] + reorder_spec(
                    rest@,
                    tail.drop_first(),
                )) =~= ordered@ + reorder_spec(rest@, tail.drop_first()));
            },
            None => {},
        }
        k = k + 1;
    }
    proof {
        assert(all.subrange(k as int, all.len() as int) =~= Seq::<String>::empty());
        lemma_reorder_permutes(start, all);
    }
    let ghost head = ordered@;
    let ghost tail = rest@;
    ordered.append(&mut rest);
    assert(ordered@ =~= head + tail);
    ordered
}

/// Why a comb name is refused.
#[derive(Clone, Copy, Debug, PartialEq, Eq, Structural)]
pub enum CombNameError {
    Empty,
    /// More than 40 bytes.
    TooLong,
    /// Starts with `.` or `-`.
    BadStart,
    /// Holds something other than ASCII letters, digits, `_` and `-`.
    BadChar,
    /// `.hive`, the hive's own metadata directory.
    Reserved,
    /// Another comb already has the name.
    Taken,
}

/// The characters a comb name may hold.
pub open spec fn is_name_char(c: char) -> bool {
    ('0' <= c && c <= '9') || ('a' <= c && c <= 'z') || ('A' <= c && c <= 'Z') || c == '_' || c
        == '-'
}

/// The first rule a comb name breaks, not counting the names already taken.
pub open spec fn comb_name_rule(name: Seq<char>) -> Option<CombNameError> {
    if name.len() == 0 {
        Some(CombNameError::Empty)
    } else if crate::fuzzy::utf8_len(name) > 40 {
        Some(CombNameError::TooLong)
    } else if name[0] == '.' || name[0] == '-' {
        Some(CombNameError::BadStart)
    } else if exists|i: int| 0 <= i < name.len() && !is_name_char(#[trigger] name[i]) {
        Some(CombNameError::BadChar)
    } else if name == ".hive"@ {
        Some(CombNameError::Reserved)
    } else {
        None
    }
}

/// The first rule `name` breaks, not counting the names already taken.
pub fn comb_name_problem(name: &str) -> (r: Option<CombNameError>)
    ensures
        r == comb_name_rule(name@),
{
    if name.is_empty() {
        return Some(CombNameError::Empty);
    }
    if name.len() > 40 {
        return Some(CombNameError::TooLong);
    }
    let v = str_chars(name);
    if v[0] == '.' || v[0] == '-' {
        return Some(CombNameError::BadStart);
    }
    let mut i: usize = 0;
    while i < v.len()
        invariant
            v@ == name@,
            name@.len() > 0,
            !(crate::fuzzy::utf8_len(name@) > 40),
            name@[0] != '.' && name@[0] != '-',
            i <= v.len(),
            forall|j: int| 0 <= j < i ==> is_name_char(#[trigger] v@[j]),
        decreases v.len() - i,
    {
        let c = v[i];
        if !(('0' <= c && c <= '9') || ('a' <= c && c <= 'z') || ('A' <= c && c <= 'Z') || c == '_'
            || c == '-') {
            assert(!is_name_char(v@[i as int]));
            return Some(CombNameError::BadChar);
        }
        i = i + 1;
    }
    if str_eq(name, ".hive") {
        return Some(CombNameError::Reserved);
    }
    None
}

/// Whether some comb is named `name`.
pub open spec fn name_in_use(name: Seq<char>, combs: Seq<Comb>) -> bool {
    exists|i: int| 0 <= i < combs.len() && #[trigger] combs[i].name@ == name
}

/// The command line's message for a refused comb name.
pub open spec fn comb_name_message(name: Seq<char>, e: CombNameError) -> Seq<char> {
    match e {
        CombNameError::Empty => "Name cannot be empty"@,
        CombNameError::TooLong => "Max 40 characters"@,
        CombNameError::BadStart => "Cannot start with '.' or '-'"@,
        CombNameError::BadChar => "Letters, numbers, hyphens, underscores only"@,
        CombNameError::Reserved => "Reserved name"@,
        CombNameError::Taken => "'"@ + name + "' already exists"@,
    }
}

/// Why `name` cannot name a new comb beside `existing`, if it cannot.
pub open spec fn comb_name_verdict(name: Seq<char>, existing: Seq<Comb>) -> Option<CombNameError> {
    match comb_name_rule(name) {
        Some(e) => Some(e),
        None => if name_in_use(name, existing) {
            Some(CombNameError::Taken)
        } else {
            None
        },
    }
}

/// Whether some comb in `combs` is named `name`.
pub fn comb_name_used(name: &str, combs: &[Comb]) -> (r: bool)
    ensures
        r == name_in_use(name@, combs@),
{
    let mut i: usize = 0;
    while i < combs.len()
        invariant
            i <= combs.len(),
            forall|j: int| 0 <= j < i ==> #[trigger] combs@[j].name@ != name@,
        decreases combs.len() - i,
    {
        if str_eq(combs[i].name.as_str(), name) {
            return true;
        }
        i = i + 1;
    }
    false
}

/// Checks a new comb name: 1 to 40 bytes of ASCII letters, digits, `_` and
/// `-`, not starting with `.` or `-`, not `.hive`, and not the name of one of
/// `existing_combs`. The error says which rule the name breaks first.
pub fn validate_comb_name(name: &str, existing_combs: &[Comb]) -> (r: Result<(), String>)
    ensures
        match comb_name_verdict(name@, existing_combs@) {
            None => r is Ok,
            Some(e) => r matches Err(m) && m@ == comb_name_message(name@, e),
        },
{
    let problem = match comb_name_problem(name) {
        Some(e) => Some(e),
        None => if comb_name_used(name, existing_combs) {
            Some(CombNameError::Taken)
        } else {
            None
        },
    };
    match problem {
        None => Ok(()),
        Some(e) => Err(comb_name_message_text(name, e)),
    }
}

/// The command line's message for a refused comb name.
pub fn comb_name_message_text(name: &str, e: CombNameError) -> (r: String)
    ensures
        r@ == comb_name_message(name@, e),
{
    let mut m = String::new();
    match e {
        CombNameError::Empty => m.append("Name cannot be empty"),
        CombNameError::TooLong => m.append("Max 40 characters"),
        CombNameError::BadStart => m.append("Cannot start with '.' or '-'"),
        CombNameError::BadChar => m.append("Letters, numbers, hyphens, underscores only"),
        CombNameError::Reserved => m.append("Reserved name"),
        CombNameError::Taken => {
            m.append("'");
            m.append(name);
            m.append("' already exists");
        },
    }
    m
}

/// Whether a directory entry of the beehive is a hive to list: its name
/// starts with `repo_` and its state was read, with a repository name.
pub open spec fn lists_hive(entry: (String, Option<HiveInfo>)) -> bool {
    is_prefix("repo_"@, entry.0@) && (entry.1 matches Some(info) && info.repo_name@.len() > 0)
}

/// The sort keys of the hive list: the lowercase repository name.
pub open spec fn hive_keys(entries: Seq<(String, Option<HiveInfo>)>) -> Seq<RankView> {
    Seq::new(
        entries.len(),
        |i: int|
            RankView {
                score: 0,
                len: 0,
                primary: match entries[i].1 {
                    Some(info) => lowercase_of(info.repo_name@),
                    None => Seq::empty(),
                },
                secondary: Seq::empty(),
            },
    )
}

/// The hives of a beehive, from its directory entries (each name with the
/// hive state read from it, when there is one): the entries that hold a
/// hive, ordered by lowercase repository name (equal names keep their order).
pub fn list_hives(entries: Vec<(String, Option<HiveInfo>)>) -> (r: Vec<HiveInfo>)
    ensures
        exists|order: Seq<usize>|
            {
                &&& #[trigger] rank_sorted(hive_keys(entries@), order)
                &&& forall|x: usize| order.contains(x) <==> (x < entries@.len() && lists_hive(entries@[x as int]))
                &&& r@.len() == order.len()
                &&& forall|k: int|
                    #![trigger r@[k]]
                    0 <= k < order.len() ==> (entries@[order[k] as int].1 matches Some(info) && r@[k].same(info))
            },
{
    let mut keys: Vec<RankKey> = Vec::new();
    let mut positions: Vec<usize> = Vec::new();
    let mut i: usize = 0;
    while i < entries.len()
        invariant
            i <= entries.len(),
            keys.len() == i,
            forall|k: int| 0 <= k < i ==> #[trigger] keys_view(keys@)[k] == hive_keys(entries@)[k],
            forall|p: int| 0 <= p < positions.len() ==> positions[p] < i,
            forall|p: int, q: int| 0 <= p < q < positions.len() ==> positions[p] < positions[q],
            forall|x: usize| positions@.contains(x) <==> (x < i && lists_hive(entries@[x as int])),
        decreases entries.len() - i,
    {
        let (name, info) = &entries[i];
        let (listed, primary) = match info {
            Some(h) => (
                str_starts_with(name.as_str(), "repo_") && str_chars(h.repo_name.as_str()).len() > 0,
                str_chars(to_lowercase(h.repo_name.as_str()).as_str()),
            ),
            None => (false, Vec::new()),
        };
        let key = RankKey { score: 0, len: 0, primary, secondary: Vec::new() };
        proof {
            assert(key@.secondary =~= hive_keys(entries@)[i as int].secondary);
            assert(key@.primary =~= hive_keys(entries@)[i as int].primary);
        }
        let ghost old_keys = keys@;
        keys.push(key);
        proof {
            assert forall|k: int| 0 <= k < i + 1 implies #[trigger] keys_view(keys@)[k] == hive_keys(
                entries@,
            )[k] by {
                if k < i {
                    assert(keys_view(keys@)[k] == keys_view(old_keys)[k]);
                }
            }
        }
        let ghost old_pos = positions@;
        if listed {
            positions.push(i);
        }
        proof {
            assert forall|x: usize| positions@.contains(x) <==> (x < i + 1 && lists_hive(entries@[x as int])) by {
                if positions@.contains(x) && x != i {
                    let w = choose|w: int| 0 <= w < positions@.len() && positions@[w] == x;
                    assert(old_pos[w] == x);
                }
                if x < i && old_pos.contains(x) {
                    let w = choose|w: int| 0 <= w < old_pos.len() && old_pos[w] == x;
                    assert(positions@[w] == x);
                }
                if x == i && listed {
                    assert(positions@[old_pos.len() as int] == x);
                }
            }
        }
        i = i + 1;
    }
    let order = rank_positions(&keys, &positions);
    let mut r: Vec<HiveInfo> = Vec::new();
    let mut k: usize = 0;
    while k < order.len()
        invariant
            k <= order.len(),
            r@.len() == k,
            forall|p: int| 0 <= p < order.len() ==> order@.contains(order@[p]),
            forall|x: usize| order@.contains(x) <==> positions@.contains(x),
            forall|x: usize| positions@.contains(x) <==> (x < entries@.len() && lists_hive(entries@[x as int])),
            forall|j: int|
                #![trigger r@[j]]
                0 <= j < k ==> (entries@[order@[j] as int].1 matches Some(info) && r@[j].same(info)),
        decreases order.len() - k,
    {
        assert(order@.contains(order@[k as int]));
        assert(positions@.contains(order@[k as int]));
        match &entries[order[k]].1 {
            Some(info) => {
                let ghost old_r = r@;
                r.push(info.clone());
                assert forall|j: int|
                    #![trigger r@[j]]
                    0 <= j < k + 1 implies (entries@[order@[j] as int].1 matches Some(info) && r@[j].same(info)) by {
                    if j < k {
                        assert(r@[j] == old_r[j]);
                    }
                }
            },
            None => {},
        }
        k = k + 1;
    }
    proof {
        assert(keys_view(keys@) =~= hive_keys(entries@));
    }
    r
}

/// The first `n` combs of a hive after a restart: a comb left marked as
/// being created is kept, marked ready, when its clone was complete
/// (`complete[i]`: its directory and `.git` exist), and dropped otherwise.
pub open spec fn cleaned_combs(combs: Seq<Comb>, complete: Seq<bool>, n: int) -> Seq<Comb>
    decreases n,
{
    if n <= 0 || n > combs.len() {
        Seq::empty()
    } else {
        let c = combs[n - 1];
        let before = cleaned_combs(combs, complete, n - 1);
        if !c.cloning {
            before.push(c)
        } else if complete[n - 1] {
            before.push(Comb { cloning: false, ..c })
        } else {
            before
        }
    }
}

/// The directories of the dropped combs among the first `n`, in order.
pub open spec fn dropped_paths(combs: Seq<Comb>, complete: Seq<bool>, n: int) -> Seq<Seq<char>>
    decreases n,
{
    if n <= 0 || n > combs.len() {
        Seq::empty()
    } else if combs[n - 1].cloning && !complete[n - 1] {
        dropped_paths(combs, complete, n - 1).push(combs[n - 1].path@)
    } else {
        dropped_paths(combs, complete, n - 1)
    }
}

/// What cleaning up a hive's combs after a restart gives.
pub struct StaleCleanup {
    /// The combs to keep.
    pub combs: Vec<Comb>,
    /// The directories of the dropped combs, to remove where they exist.
    pub removed_paths: Vec<String>,
    /// Whether any comb was marked as being created (the state is then saved).
    pub changed: bool,
}

/// Cleans up the combs of a hive left marked as being created when the app
/// stopped: finished clones are marked ready, the others are dropped and
/// their directories listed for removal.
pub fn clean_stale_combs(combs: Vec<Comb>, complete: &Vec<bool>) -> (r: StaleCleanup)
    requires
        complete@.len() == combs@.len(),
    ensures
        r.combs@ == cleaned_combs(combs@, complete@, combs@.len() as int),
        r.removed_paths@.map_values(|s: String| s@) == dropped_paths(combs@, complete@, combs@.len() as int),
        r.changed == exists|i: int| 0 <= i < combs@.len() && #[trigger] combs@[i].cloning,
{
    let ghost orig = combs@;
    let mut rest = combs;
    let mut kept: Vec<Comb> = Vec::new();
    let mut removed: Vec<String> = Vec::new();
    let mut changed = false;
    let mut i: usize = 0;
    assert(orig.subrange(0, orig.len() as int) =~= orig);
    assert(orig.len() == complete.len());
    while rest.len() > 0
        invariant
            i <= orig.len(),
            i + rest@.len() == orig.len(),
            complete@.len() == orig.len(),
            orig.len() <= usize::MAX,
            rest@ == orig.subrange(i as int, orig.len() as int),
            kept@ == cleaned_combs(orig, complete@, i as int),
            removed@.map_values(|s: String| s@) == dropped_paths(orig, complete@, i as int),
            changed == exists|j: int| 0 <= j < i && #[trigger] orig[j].cloning,
        decreases rest.len(),
    {
        let mut c = rest.remove(0);
        assert(c == orig[i as int]);
        assert(rest@ =~= orig.subrange(i + 1, orig.len() as int));
        let ghost before = removed@;
        if c.cloning {
            changed = true;
            if complete[i] {
                c.cloning = false;
                kept.push(c);
            } else {
                removed.push(c.path.clone());
                assert(removed@.map_values(|s: String| s@) =~= before.map_values(|s: String| s@).push(c.path@));
            }
        } else {
            kept.push(c);
        }
        i = i + 1;
    }
    StaleCleanup { combs: kept, removed_paths: removed, changed }
}

/// The beehive directory given at first start: the answer trimmed; empty
/// means `home/beehive`; a leading `~` stands for `home`.
pub open spec fn chosen_beehive_dir(answer: Seq<char>, home: Seq<char>) -> Seq<char> {
    let t = trimmed(answer);
    if t.len() == 0 {
        home + "/beehive"@
    } else if t[0] == '~' {
        home + t.drop_first()
    } else {
        t
    }
}

/// The beehive directory given at first start: the answer trimmed; empty
/// means `home/beehive`; a leading `~` stands for `home`.
pub fn choose_beehive_dir(answer: &str, home: &str) -> (r: String)
    ensures
        r@ == chosen_beehive_dir(answer@, home@),
{
    let t = str_chars(trim(answer));
    let mut r = to_owned_string(home);
    if t.len() == 0 {
        r.append("/beehive");
        return r;
    }
    if t[0] != '~' {
        return chars_to_string(&t);
    }
    let mut i: usize = 1;
    while i < t.len()
        invariant
            1 <= i <= t@.len(),
            r@ == home@ + t@.subrange(1, i as int),
        decreases t.len() - i,
    {
        crate::text::push_char(&mut r, t[i]);
        assert(r@ =~= home@ + t@.subrange(1, i + 1));
        i = i + 1;
    }
    assert(t@.subrange(1, t@.len() as int) =~= t@.drop_first());
    r
}

/// Whether a comb other than the one at `k` is named `name`.
pub open spec fn name_used_by_other(combs: Seq<Comb>, k: int, name: Seq<char>) -> bool {
    exists|i: int| 0 <= i < combs.len() && i != k && #[trigger] combs[i].name@ == name
}

/// Which comb a rename of comb `id` to `new_name` applies to (its
/// position), or why it is refused: no such comb, a comb still being
/// created, the same name, or a name the rules or another comb refuse.
pub open spec fn rename_plan(combs: Seq<Comb>, id: Seq<char>, new_name: Seq<char>) -> Result<int, Seq<char>> {
    match comb_index(combs, id) {
        None => Err("Comb '"@ + id + "' not found"@),
        Some(k) => if combs[k].cloning {
            Err("Cannot rename a comb that is still in progress"@)
        } else if new_name == combs[k].name@ {
            Err("Comb already has that name"@)
        } else {
            match comb_name_rule(new_name) {
                Some(e) => Err(comb_name_message(new_name, e)),
                None => if name_used_by_other(combs, k, new_name) {
                    Err(comb_name_message(new_name, CombNameError::Taken))
                } else {
                    Ok(k)
                },
            }
        },
    }
}

/// Checks a rename of comb `comb_id` to `new_name` against the hive's
/// combs: the position of the comb to rename, or why it is refused.
pub fn check_rename(combs: &Vec<Comb>, comb_id: &String, new_name: &str) -> (r: Result<usize, String>)
    ensures
        match rename_plan(combs@, comb_id@, new_name@) {
            Ok(k) => r == Ok::<usize, String>(k as usize),
            Err(m) => r matches Err(e) && e@ == m,
        },
{
    proof {
        lemma_comb_index(combs@, comb_id@);
    }
    let k = match comb_position(combs, comb_id) {
        Some(k) => k,
        None => {
            let mut m = to_owned_string("Comb '");
            m.append(comb_id.as_str());
            m.append("' not found");
            return Err(m);
        },
    };
    if combs[k].cloning {
        return Err(to_owned_string("Cannot rename a comb that is still in progress"));
    }
    if str_eq(new_name, combs[k].name.as_str()) {
        return Err(to_owned_string("Comb already has that name"));
    }
    let problem = match comb_name_problem(new_name) {
        Some(e) => Some(e),
        None => {
            let mut used = false;
            let mut i: usize = 0;
            while i < combs.len()
                invariant
                    i <= combs@.len(),
                    k < combs@.len(),
                    used == exists|j: int| 0 <= j < i && j != k && #[trigger] combs@[j].name@ == new_name@,
                decreases combs.len() - i,
            {
                if i != k && str_eq(combs[i].name.as_str(), new_name) {
                    used = true;
                }
                i = i + 1;
            }
            if used {
                Some(CombNameError::Taken)
            } else {
                None
            }
        },
    };
    match problem {
        None => Ok(k),
        Some(e) => Err(comb_name_message_text(new_name, e)),
    }
}

/// The answer to whether the rename target `new_name` is taken on disk
/// (`conflict`: another entry there, or why that could not be told): the
/// rename goes on only when it is free.
pub fn check_rename_target(conflict: Result<bool, String>, new_name: &str) -> (r: Result<(), String>)
    ensures
        match conflict {
            Ok(false) => r is Ok,
            Ok(true) => r matches Err(e) && e@ == "Directory '"@ + new_name@ + "' already exists"@,
            Err(m) => r matches Err(e) && e@ == m@,
        },
{
    match conflict {
        Ok(false) => Ok(()),
        Ok(true) => {
            let mut m = to_owned_string("Directory '");
            m.append(new_name);
            m.append("' already exists");
            Err(m)
        },
        Err(m) => Err(m),
    }
}

/// Comb `k` renamed to `new_name`, its directory now at `new_path`; every
/// other comb, and every other field of comb `k`, unchanged.
pub fn apply_rename(combs: &mut Vec<Comb>, k: usize, new_name: &str, new_path: String)
    requires
        k < old(combs)@.len(),
    ensures
        final(combs)@.len() == old(combs)@.len(),
        forall|i: int| 0 <= i < old(combs)@.len() && i != k ==> #[trigger] final(combs)@[i] == old(combs)@[i],
        final(combs)@[k as int].name@ == new_name@,
        final(combs)@[k as int].path@ == new_path@,
        final(combs)@[k as int].id == old(combs)@[k as int].id,
        final(combs)@[k as int].branch == old(combs)@[k as int].branch,
        final(combs)@[k as int].created_at == old(combs)@[k as int].created_at,
        final(combs)@[k as int].nest_id == old(combs)@[k as int].nest_id,
        final(combs)@[k as int].panes == old(combs)@[k as int].panes,
        final(combs)@[k as int].cloning == old(combs)@[k as int].cloning,
        final(combs)@[k as int].operation == old(combs)@[k as int].operation,
{
    let mut c = combs.remove(k);
    c.name = to_owned_string(new_name);
    c.path = new_path;
    combs.insert(k, c);
}

/// The directories searched before the system's: Homebrew's and
/// `/usr/local`'s.
pub open spec fn extra_path_dirs() -> Seq<Seq<char>> {
    seq!["/opt/homebrew/bin"@, "/opt/homebrew/sbin"@, "/usr/local/bin"@, "/usr/local/sbin"@]
}

/// `acc` followed by the first `n` of `items` that are not already listed.
pub open spec fn append_new(acc: Seq<Seq<char>>, items: Seq<Seq<char>>, n: int) -> Seq<Seq<char>>
    decreases n,
{
    if n <= 0 || n > items.len() {
        acc
    } else {
        let prev = append_new(acc, items, n - 1);
        if prev.contains(items[n - 1]) {
            prev
        } else {
            prev.push(items[n - 1])
        }
    }
}

/// The search path that commands run with: the extra directories, then the
/// system path's entries not already listed, joined with `:`.
pub open spec fn full_path_spec(system_path: Seq<char>) -> Seq<char> {
    let sys = split_on(system_path, ':');
    crate::background::joined(append_new(extra_path_dirs(), sys, sys.len() as int), ":"@)
}

/// Whether `parts` lists `p`.
fn listed(parts: &Vec<String>, p: &Vec<char>) -> (r: bool)
    ensures
        r == parts@.map_values(|s: String| s@).contains(p@),
{
    let ghost v = parts@.map_values(|s: String| s@);
    let mut i: usize = 0;
    while i < parts.len()
        invariant
            i <= parts@.len(),
            v == parts@.map_values(|s: String| s@),
            forall|j: int| 0 <= j < i ==> v[j] != p@,
        decreases parts.len() - i,
    {
        if crate::text::chars_eq(&str_chars(parts[i].as_str()), p) {
            assert(v[i as int] == p@);
            return true;
        }
        i = i + 1;
    }
    false
}

/// The search path that commands run with, given the system's (`PATH`):
/// Homebrew's and `/usr/local`'s directories first, then the system's
/// entries not already listed, joined with `:`.
pub fn full_path(system_path: &str) -> (r: String)
    ensures
        r@ == full_path_spec(system_path@),
{
    let mut parts: Vec<String> = Vec::new();
    parts.push(to_owned_string("/opt/homebrew/bin"));
    parts.push(to_owned_string("/opt/homebrew/sbin"));
    parts.push(to_owned_string("/usr/local/bin"));
    parts.push(to_owned_string("/usr/local/sbin"));
    assert(parts@.map_values(|s: String| s@) =~= extra_path_dirs());
    let sys = split_chars(&str_chars(system_path), ':');
    let ghost items = split_on(system_path@, ':');
    let mut i: usize = 0;
    while i < sys.len()
        invariant
            i <= sys@.len(),
            sys@.len() == items.len(),
            forall|k: int| 0 <= k < sys@.len() ==> #[trigger] sys@[k]@ == items[k],
            parts@.map_values(|s: String| s@) == append_new(extra_path_dirs(), items, i as int),
        decreases sys.len() - i,
    {
        let ghost before = parts@;
        if !listed(&parts, &sys[i]) {
            parts.push(chars_to_string(&sys[i]));
            assert(parts@.map_values(|s: String| s@) =~= before.map_values(|s: String| s@).push(items[i as int]));
        }
        i = i + 1;
    }
    crate::background::join_strings(&parts, ":")
}

} // verus!
