//! The desktop app's backend logic: tool checks, branch and directory lists,
//! comb and nest names, repository references.

use vstd::prelude::*;

use crate::fuzzy::utf8_len;
use crate::model::{clone_panes, Comb, HiveState, Nest, PaneConfig};
use crate::rank::{keys_view, rank_positions, rank_sorted, RankKey, RankView};
use crate::repo::{parse_repo_parts, repo_url_spec, RepoUrlError};
use crate::settings::{
    comb_index, comb_position, lemma_comb_index, comb_name_problem, comb_name_rule, first_line, lines_of, text_first_line, text_lines,
    CombNameError,
};
use crate::text::{is_prefix, lowercase_of, str_chars, str_eq, to_lowercase, to_owned_string, trim, trimmed};

verus! {

/// The outcome of checking the tools the desktop app needs.
pub struct PreflightResult {
    pub ok: bool,
    pub git_available: bool,
    pub gh_available: bool,
    pub gh_authenticated: bool,
    pub messages: Vec<String>,
}

/// A branch of a hive's repository.
pub struct RepoBranch {
    pub name: String,
    pub is_default: bool,
}

/// A directory offered by the folder picker.
pub struct DirEntry {
    pub name: String,
    pub path: String,
    pub is_dir: bool,
}

/// Sent when an operation on a comb finishes.
pub struct CombOperationResult {
    pub hive_dir_name: String,
    pub comb_id: String,
    /// "cloning", "copying" or "deleting".
    pub op_type: String,
    pub success: bool,
    pub error: Option<String>,
}

/// Sent when an operation on a hive finishes.
pub struct HiveOperationResult {
    pub hive_dir_name: String,
    /// "deleting".
    pub op_type: String,
    pub success: bool,
    pub error: Option<String>,
}

/// Puts a comb in a nest, or in no nest.
pub struct CombNestAssignment {
    pub comb_id: String,
    pub nest_id: Option<String>,
}

/// Whether the command-line tool is installed, and as what.
pub struct CliStatusResult {
    pub installed: bool,
    pub cmd_name: Option<String>,
    pub path: Option<String>,
}

/// The report lines of the tool checks.
pub open spec fn preflight_messages(git: Option<Seq<char>>, gh: Option<Seq<char>>, gh_auth_ok: bool) -> Seq<
    Seq<char>,
> {
    let a: Seq<Seq<char>> = match git {
        Some(v) => seq!["git: "@ + v],
        None => seq!["git is not installed. Install it from https://git-scm.com"@],
    };
    let b: Seq<Seq<char>> = match gh {
        Some(v) => seq!["gh: "@ + first_line(v)],
        None => seq!["gh CLI is not installed. Install it from https://cli.github.com"@],
    };
    let c: Seq<Seq<char>> = match gh {
        Some(_) => if gh_auth_ok {
            seq!["gh: authenticated"@]
        } else {
            seq!["gh is not authenticated. Run: gh auth login"@]
        },
        None => seq![],
    };
    a + b + c
}

/// The optional view of an optional text.
pub open spec fn opt_view(o: Option<String>) -> Option<Seq<char>> {
    match o {
        Some(s) => Some(s@),
        None => None,
    }
}

/// Builds the report of the tool checks from what they printed: the output of
/// `git --version` and of `gh --version` when they ran, and whether
/// `gh auth status` succeeded (only asked when gh ran).
pub fn preflight_check(git_version: Option<String>, gh_version: Option<String>, gh_auth_ok: bool) -> (r:
    PreflightResult)
    ensures
        r.git_available == git_version is Some,
        r.gh_available == gh_version is Some,
        r.gh_authenticated == (gh_version is Some && gh_auth_ok),
        r.ok == (git_version is Some && gh_version is Some && gh_auth_ok),
        r.messages@.len() == preflight_messages(opt_view(git_version), opt_view(gh_version), gh_auth_ok).len(),
        forall|i: int|
            0 <= i < r.messages@.len() ==> #[trigger] r.messages@[i]@ == preflight_messages(
                opt_view(git_version),
                opt_view(gh_version),
                gh_auth_ok,
            )[i],
{
    let ghost want = preflight_messages(opt_view(git_version), opt_view(gh_version), gh_auth_ok);
    let mut messages: Vec<String> = Vec::new();
    let git_available = git_version.is_some();
    match &git_version {
        Some(v) => {
            let mut m = String::new();
            m.append("git: ");
            m.append(v.as_str());
            messages.push(m);
        },
        None => messages.push(to_owned_string("git is not installed. Install it from https://git-scm.com")),
    }
    let gh_available = gh_version.is_some();
    match &gh_version {
        Some(v) => {
            let line = text_first_line(v.as_str());
            let mut m = String::new();
            m.append("gh: ");
            m.append(line.as_str());
            messages.push(m);
        },
        None => messages.push(to_owned_string("gh CLI is not installed. Install it from https://cli.github.com")),
    }
    let mut gh_authenticated = false;
    if gh_available {
        if gh_auth_ok {
            gh_authenticated = true;
            messages.push(to_owned_string("gh: authenticated"));
        } else {
            messages.push(to_owned_string("gh is not authenticated. Run: gh auth login"));
        }
    }
    proof {
        assert(messages@.len() == want.len());
        assert forall|i: int| 0 <= i < messages@.len() implies #[trigger] messages@[i]@ == want[i] by {}
    }
    PreflightResult {
        ok: git_available && gh_available && gh_auth_ok,
        git_available,
        gh_available,
        gh_authenticated,
        messages,
    }
}

/// The default branch a hive names, or `main`.
pub open spec fn default_branch_name(default_branch: Option<String>) -> Seq<char> {
    match default_branch {
        Some(b) => b@,
        None => "main"@,
    }
}

/// The branches `gh api` listed, one per line of `output`, each marked whether
/// it is the hive's default branch (`main` when the hive names none).
pub fn list_branches(output: &str, default_branch: Option<String>) -> (r: Vec<RepoBranch>)
    ensures
        r@.len() == lines_of(output@).len(),
        forall|i: int|
            #![trigger r@[i]]
            0 <= i < r@.len() ==> r@[i].name@ == lines_of(output@)[i] && r@[i].is_default == (
            lines_of(output@)[i] == default_branch_name(default_branch)),
{
    let ghost want = default_branch_name(default_branch);
    let d = match default_branch {
        Some(b) => b,
        None => to_owned_string("main"),
    };
    assert(d@ == want);
    let lines = text_lines(output);
    let mut r: Vec<RepoBranch> = Vec::new();
    let mut i: usize = 0;
    while i < lines.len()
        invariant
            i <= lines.len(),
            lines@.len() == lines_of(output@).len(),
            forall|k: int| 0 <= k < lines@.len() ==> #[trigger] lines@[k]@ == lines_of(output@)[k],
            d@ == default_branch_name(default_branch),
            r@.len() == i,
            forall|k: int|
                #![trigger r@[k]]
                0 <= k < i ==> r@[k].name@ == lines_of(output@)[k] && r@[k].is_default == (
                lines_of(output@)[k] == d@),
        decreases lines.len() - i,
    {
        let is_default = str_eq(lines[i].as_str(), d.as_str());
        r.push(RepoBranch { name: lines[i].clone(), is_default });
        i = i + 1;
    }
    r
}

/// Whether the folder picker shows an entry: a directory whose name does not
/// start with `.`.
pub open spec fn shows_entry(e: DirEntry) -> bool {
    e.is_dir && !is_prefix("."@, e.name@)
}

/// The sort keys of the folder picker: the lowercase name.
pub open spec fn dir_keys(entries: Seq<DirEntry>) -> Seq<RankView> {
    Seq::new(
        entries.len(),
        |i: int| RankView { score: 0, len: 0, primary: lowercase_of(entries[i].name@), secondary: Seq::empty() },
    )
}

/// The entries of a directory that the folder picker shows, ordered by
/// lowercase name (entries with equal lowercase names keep their order).
pub fn list_dir_entries(entries: Vec<DirEntry>) -> (r: Vec<DirEntry>)
    ensures
        exists|order: Seq<usize>|
            {
                &&& #[trigger] rank_sorted(dir_keys(entries@), order)
                &&& forall|x: usize| order.contains(x) <==> (x < entries@.len() && shows_entry(entries@[x as int]))
                &&& r@.len() == order.len()
                &&& forall|k: int|
                    #![trigger r@[k]]
                    0 <= k < order.len() ==> r@[k].name@ == entries@[order[k] as int].name@
                        && r@[k].path@ == entries@[order[k] as int].path@ && r@[k].is_dir
            },
{
    let dot = str_chars(".");
    let mut keys: Vec<RankKey> = Vec::new();
    let mut positions: Vec<usize> = Vec::new();
    let mut i: usize = 0;
    while i < entries.len()
        invariant
            i <= entries.len(),
            dot@ == "."@,
            keys.len() == i,
            forall|k: int| 0 <= k < i ==> #[trigger] keys_view(keys@)[k] == dir_keys(entries@)[k],
            forall|p: int| 0 <= p < positions.len() ==> positions[p] < i,
            forall|p: int, q: int| 0 <= p < q < positions.len() ==> positions[p] < positions[q],
            forall|x: usize| positions@.contains(x) <==> (x < i && shows_entry(entries@[x as int])),
        decreases entries.len() - i,
    {
        let e = &entries[i];
        let name = str_chars(e.name.as_str());
        let shown = e.is_dir && !crate::text::chars_start_with(&name, &dot);
        let primary = str_chars(to_lowercase(e.name.as_str()).as_str());
        let key = RankKey { score: 0, len: 0, primary, secondary: Vec::new() };
        proof {
            assert(key@.secondary =~= dir_keys(entries@)[i as int].secondary);
        }
        let ghost old_keys = keys@;
        keys.push(key);
        proof {
            assert forall|k: int| 0 <= k < i + 1 implies #[trigger] keys_view(keys@)[k] == dir_keys(
                entries@,
            )[k] by {
                if k < i {
                    assert(keys_view(keys@)[k] == keys_view(old_keys)[k]);
                }
            }
        }
        let ghost old_pos = positions@;
        if shown {
            positions.push(i);
        }
        proof {
            assert forall|x: usize|
                positions@.contains(x) <==> (x < i + 1 && shows_entry(entries@[x as int])) by {
                if positions@.contains(x) && x != i {
                    let w = choose|w: int| 0 <= w < positions@.len() && positions@[w] == x;
                    assert(old_pos[w] == x);
                }
                if x < i && old_pos.contains(x) {
                    let w = choose|w: int| 0 <= w < old_pos.len() && old_pos[w] == x;
                    assert(positions@[w] == x);
                }
                if x == i && shown {
                    assert(positions@[old_pos.len() as int] == x);
                }
            }
        }
        i = i + 1;
    }
    let order = rank_positions(&keys, &positions);
    let mut r: Vec<DirEntry> = Vec::new();
    let mut k: usize = 0;
    while k < order.len()
        invariant
            k <= order.len(),
            r@.len() == k,
            forall|p: int| 0 <= p < order.len() ==> order@.contains(order@[p]),
            forall|x: usize| order@.contains(x) <==> positions@.contains(x),
            forall|x: usize| positions@.contains(x) ==> x < entries.len(),
            forall|j: int|
                #![trigger r@[j]]
                0 <= j < k ==> r@[j].name@ == entries@[order@[j] as int].name@ && r@[j].path@
                    == entries@[order@[j] as int].path@ && r@[j].is_dir,
        decreases order.len() - k,
    {
        assert(order@.contains(order@[k as int]));
        let e = &entries[order[k]];
        let entry = DirEntry { name: e.name.clone(), path: e.path.clone(), is_dir: true };
        assert(entry.name@ == entries@[order@[k as int] as int].name@);
        assert(entry.path@ == entries@[order@[k as int] as int].path@);
        let ghost old_r = r@;
        r.push(entry);
        assert forall|j: int|
            #![trigger r@[j]]
            0 <= j < k + 1 implies r@[j].name@ == entries@[order@[j] as int].name@ && r@[j].path@
                == entries@[order@[j] as int].path@ && r@[j].is_dir by {
            if j < k {
                assert(r@[j] == old_r[j]);
            }
        }
        k = k + 1;
    }
    proof {
        assert(keys_view(keys@) =~= dir_keys(entries@));
        assert(rank_sorted(dir_keys(entries@), order@));
    }
    r
}

/// What `Path::file_name` returns for a path: its final component, `None`
/// for a path that ends in `..` or is a root. Components are split by the
/// platform's separators (`/` on the Unix-like systems the program runs on).
pub uninterp spec fn path_file_name(path: Seq<char>) -> Option<Seq<char>>;

/// Calls `Path::file_name` (the result is always valid UTF-8, since the path
/// is a `str`). The result is named, a function of the path alone.
#[verifier::external_body]
fn file_name_of(path: &str) -> (r: Option<String>)
    ensures
        opt_view(r) == path_file_name(path@),
{
    match std::path::Path::new(path).file_name() {
        Some(n) => match n.to_str() {
            Some(t) => Some(t.to_string()),
            None => None,
        },
        None => None,
    }
}

/// The last component of the comb's directory path.
fn comb_path_basename(comb: &Comb) -> (r: Option<String>)
    ensures
        opt_view(r) == path_file_name(comb.path@),
{
    file_name_of(comb.path.as_str())
}

/// Whether a comb already has `name` as its name or as the last component of
/// its directory path (`basenames[i]` is that component for `combs[i]`).
pub open spec fn name_taken_spec(name: Seq<char>, combs: Seq<Comb>, basenames: Seq<Option<Seq<char>>>) -> bool {
    exists|i: int|
        #![trigger combs[i]]
        0 <= i < combs.len() && (combs[i].name@ == name || basenames[i] == Some(name))
}

/// Whether a comb already has `name` as its name or as the last component of
/// its directory path; `basenames[i]` is that component for `combs[i]`.
pub fn comb_name_taken(name: &str, combs: &[Comb], basenames: &[Option<String>]) -> (r: bool)
    requires
        basenames.len() == combs.len(),
    ensures
        r == name_taken_spec(name@, combs@, basenames@.map_values(|b: Option<String>| opt_view(b))),
{
    let ghost bs = basenames@.map_values(|b: Option<String>| opt_view(b));
    let mut i: usize = 0;
    while i < combs.len()
        invariant
            i <= combs.len(),
            basenames.len() == combs.len(),
            bs == basenames@.map_values(|b: Option<String>| opt_view(b)),
            forall|j: int|
                #![trigger combs@[j]]
                0 <= j < i ==> !(combs@[j].name@ == name@ || bs[j] == Some(name@)),
        decreases combs.len() - i,
    {
        let hit = match &basenames[i] {
            Some(b) => str_eq(b.as_str(), name),
            None => false,
        };
        if str_eq(combs[i].name.as_str(), name) || hit {
            assert(bs[i as int] == opt_view(basenames@[i as int]));
            assert(combs@[i as int].name@ == name@ || bs[i as int] == Some(name@));
            return true;
        }
        assert(bs[i as int] == opt_view(basenames@[i as int]));
        assert(!(combs@[i as int].name@ == name@ || bs[i as int] == Some(name@)));
        i = i + 1;
    }
    false
}

/// The desktop app's message for a refused comb name.
pub open spec fn comb_name_message(name: Seq<char>, e: CombNameError) -> Seq<char> {
    match e {
        CombNameError::Empty => "Comb name cannot be empty"@,
        CombNameError::TooLong => "Comb name must be 40 characters or fewer"@,
        CombNameError::BadStart => "Comb name cannot start with '.' or '-'"@,
        CombNameError::BadChar => "Comb name can only contain letters, numbers, hyphens, and underscores"@,
        CombNameError::Reserved => "'.hive' is a reserved name"@,
        CombNameError::Taken => "A comb named '"@ + name + "' already exists"@,
    }
}

/// The desktop app's message for a refused comb name.
fn comb_name_error_text(name: &str, e: CombNameError) -> (m: String)
    ensures
        m@ == comb_name_message(name@, e),
{
    let mut m = String::new();
    match e {
        CombNameError::Empty => m.append("Comb name cannot be empty"),
        CombNameError::TooLong => m.append("Comb name must be 40 characters or fewer"),
        CombNameError::BadStart => m.append("Comb name cannot start with '.' or '-'"),
        CombNameError::BadChar => m.append(
            "Comb name can only contain letters, numbers, hyphens, and underscores",
        ),
        CombNameError::Reserved => m.append("'.hive' is a reserved name"),
        CombNameError::Taken => {
            m.append("A comb named '");
            m.append(name);
            m.append("' already exists");
        },
    }
    m
}

/// Checks a new comb name by the rules of `settings::validate_comb_name`; a
/// name is also taken when it is the last component of an existing comb's
/// directory path.
pub fn validate_comb_name(name: &str, existing_combs: &[Comb]) -> (r: Result<(), String>)
    ensures
        match comb_name_rule(name@) {
            Some(e) => r matches Err(m) && m@ == comb_name_message(name@, e),
            None => if exists|i: int|
                #![trigger existing_combs@[i]]
                0 <= i < existing_combs@.len() && (existing_combs@[i].name@ == name@
                    || path_file_name(existing_combs@[i].path@) == Some(name@)) {
                r matches Err(m) && m@ == comb_name_message(name@, CombNameError::Taken)
            } else {
                r is Ok
            },
        },
{
    match comb_name_problem(name) {
        Some(e) => return Err(comb_name_error_text(name, e)),
        None => {},
    }
    let mut basenames: Vec<Option<String>> = Vec::new();
    let mut i: usize = 0;
    while i < existing_combs.len()
        invariant
            i <= existing_combs.len(),
            basenames@.len() == i,
            forall|j: int|
                0 <= j < i ==> #[trigger] opt_view(basenames@[j]) == path_file_name(existing_combs@[j].path@),
        decreases existing_combs.len() - i,
    {
        basenames.push(comb_path_basename(&existing_combs[i]));
        i = i + 1;
    }
    let ghost bs = basenames@.map_values(|b: Option<String>| opt_view(b));
    assert forall|j: int| 0 <= j < existing_combs@.len() implies bs[j] == path_file_name(
        existing_combs@[j].path@,
    ) by {}
    if comb_name_taken(name, existing_combs, basenames.as_slice()) {
        proof {
            let w = choose|w: int|
                #![trigger existing_combs@[w]]
                0 <= w < existing_combs@.len() && (existing_combs@[w].name@ == name@ || bs[w]
                    == Some(name@));
            assert(existing_combs@[w].name@ == name@ || path_file_name(existing_combs@[w].path@) == Some(
                name@,
            ));
        }
        return Err(comb_name_error_text(name, CombNameError::Taken));
    }
    assert forall|j: int| 0 <= j < existing_combs@.len() implies !(#[trigger] existing_combs@[j].name@
        == name@ || path_file_name(existing_combs@[j].path@) == Some(name@)) by {
        assert(bs[j] == path_file_name(existing_combs@[j].path@));
    }
    Ok(())
}

/// A control character: general category Cc, U+0000 to U+001F and U+007F to
/// U+009F (as `char::is_control`).
pub open spec fn is_control(c: char) -> bool {
    c <= '\u{1f}' || ('\u{7f}' <= c && c <= '\u{9f}')
}

/// Why a nest name is refused, as the message says it; checked on the
/// trimmed name.
pub open spec fn nest_name_error(name: Seq<char>) -> Option<Seq<char>> {
    let t = trimmed(name);
    if t.len() == 0 {
        Some("Nest name cannot be empty"@)
    } else if utf8_len(t) > 40 {
        Some("Nest name must be 40 characters or fewer"@)
    } else if exists|i: int| 0 <= i < t.len() && is_control(#[trigger] t[i]) {
        Some("Nest name cannot contain control characters"@)
    } else {
        None
    }
}

/// Checks a nest name: after trimming, 1 to 40 bytes without control
/// characters.
pub fn validate_nest_name(name: &str) -> (r: Result<(), String>)
    ensures
        match nest_name_error(name@) {
            Some(m) => r matches Err(e) && e@ == m,
            None => r is Ok,
        },
{
    let t = trim(name);
    if t.is_empty() {
        return Err(to_owned_string("Nest name cannot be empty"));
    }
    if t.len() > 40 {
        return Err(to_owned_string("Nest name must be 40 characters or fewer"));
    }
    let v = str_chars(t);
    let mut i: usize = 0;
    while i < v.len()
        invariant
            v@ == t@,
            t@ == trimmed(name@),
            t@.len() > 0,
            !(utf8_len(t@) > 40),
            i <= v.len(),
            forall|j: int| 0 <= j < i ==> !is_control(#[trigger] v@[j]),
        decreases v.len() - i,
    {
        let c = v[i];
        if c <= '\u{1f}' || ('\u{7f}' <= c && c <= '\u{9f}') {
            assert(is_control(t@[i as int]));
            return Err(to_owned_string("Nest name cannot contain control characters"));
        }
        i = i + 1;
    }
    Ok(())
}

/// The case-folded trimmed name by which nests must differ.
pub open spec fn folded_name(n: Nest) -> Seq<char> {
    lowercase_of(trimmed(n.name@))
}

/// What is wrong with the nest at position `i`, given that the nests before
/// it passed.
pub open spec fn nest_error_at(ns: Seq<Nest>, i: int) -> Option<Seq<char>> {
    let n = ns[i];
    if trimmed(n.id@).len() == 0 {
        Some("Nest id cannot be empty"@)
    } else if exists|j: int| 0 <= j < i && #[trigger] ns[j].id@ == n.id@ {
        Some("Duplicate nest id '"@ + n.id@ + "'"@)
    } else if nest_name_error(n.name@) is Some {
        nest_name_error(n.name@)
    } else if exists|j: int| 0 <= j < i && #[trigger] folded_name(ns[j]) == folded_name(n) {
        Some("Nest '"@ + trimmed(n.name@) + "' already exists"@)
    } else {
        None
    }
}

/// The first problem among the nests from position `i` on.
pub open spec fn nests_error_from(ns: Seq<Nest>, i: int) -> Option<Seq<char>>
    decreases ns.len() - i,
{
    if i < 0 || i >= ns.len() {
        None
    } else {
        match nest_error_at(ns, i) {
            Some(m) => Some(m),
            None => nests_error_from(ns, i + 1),
        }
    }
}

/// Checks a hive's nests in order: every id non-blank and distinct, every
/// name valid, and no two names equal after trimming and lowercasing. The
/// error describes the first nest that fails.
pub fn validate_nests(nests: &[Nest]) -> (r: Result<(), String>)
    ensures
        match nests_error_from(nests@, 0) {
            Some(m) => r matches Err(e) && e@ == m,
            None => r is Ok,
        },
{
    let mut folded: Vec<String> = Vec::new();
    let mut i: usize = 0;
    while i < nests.len()
        invariant
            i <= nests.len(),
            nests_error_from(nests@, 0) == nests_error_from(nests@, i as int),
            folded@.len() == i,
            forall|j: int| 0 <= j < i ==> #[trigger] folded@[j]@ == folded_name(nests@[j]),
        decreases nests.len() - i,
    {
        let n = &nests[i];
        let ghost want = nest_error_at(nests@, i as int);
        if trim(n.id.as_str()).is_empty() {
            let e = to_owned_string("Nest id cannot be empty");
            return Err(e);
        }
        assert(trimmed(n.id@).len() > 0);
        let mut j: usize = 0;
        while j < i
            invariant
                i < nests.len(),
                j <= i,
                nests_error_from(nests@, 0) == nests_error_from(nests@, i as int),
                n.id@ == nests@[i as int].id@,
                trimmed(nests@[i as int].id@).len() > 0,
                forall|k: int| 0 <= k < j ==> #[trigger] nests@[k].id@ != nests@[i as int].id@,
            decreases i - j,
        {
            if str_eq(nests[j].id.as_str(), n.id.as_str()) {
                assert(nests@[j as int].id@ == nests@[i as int].id@);
                assert(nest_error_at(nests@, i as int) == Some("Duplicate nest id '"@ + n.id@ + "'"@));
                let mut e = String::new();
                e.append("Duplicate nest id '");
                e.append(n.id.as_str());
                e.append("'");
                return Err(e);
            }
            j = j + 1;
        }
        match validate_nest_name(n.name.as_str()) {
            Err(e) => {
                assert(nest_error_at(nests@, i as int) == nest_name_error(n.name@));
                return Err(e);
            },
            Ok(()) => {},
        }
        let t = trim(n.name.as_str());
        let f = to_lowercase(t);
        let mut j: usize = 0;
        while j < i
            invariant
                i < nests.len(),
                j <= i,
                nests_error_from(nests@, 0) == nests_error_from(nests@, i as int),
                trimmed(nests@[i as int].id@).len() > 0,
                forall|k: int| 0 <= k < i ==> #[trigger] nests@[k].id@ != nests@[i as int].id@,
                nest_name_error(nests@[i as int].name@) is None,
                folded@.len() == i,
                forall|k: int| 0 <= k < i ==> #[trigger] folded@[k]@ == folded_name(nests@[k]),
                f@ == folded_name(nests@[i as int]),
                t@ == trimmed(nests@[i as int].name@),
                forall|k: int| 0 <= k < j ==> folded_name(#[trigger] nests@[k]) != f@,
            decreases i - j,
        {
            if str_eq(folded[j].as_str(), f.as_str()) {
                assert(folded_name(nests@[j as int]) == folded_name(nests@[i as int]));
                assert(nest_error_at(nests@, i as int) == Some("Nest '"@ + t@ + "' already exists"@));
                let mut e = String::new();
                e.append("Nest '");
                e.append(t);
                e.append("' already exists");
                return Err(e);
            }
            j = j + 1;
        }
        assert(nest_error_at(nests@, i as int) is None);
        let ghost old_folded = folded@;
        folded.push(f);
        assert forall|k: int| 0 <= k < i + 1 implies #[trigger] folded@[k]@ == folded_name(nests@[k]) by {
            if k < i {
                assert(folded@[k] == old_folded[k]);
            }
        }
        i = i + 1;
    }
    Ok(())
}

/// The message the desktop app gives for a reference it cannot read.
pub open spec fn repo_url_message_long(url: Seq<char>, e: RepoUrlError) -> Seq<char> {
    match e {
        RepoUrlError::Ssh => "Cannot parse SSH URL: "@ + url + ". Expected format: git@github.com:owner/repo"@,
        RepoUrlError::GitHub => "Cannot parse GitHub URL: "@ + url
            + ". Expected format: https://github.com/owner/repo"@,
        RepoUrlError::Short => "Cannot parse '"@ + url + "'. Use owner/repo, a GitHub URL, or SSH URL."@,
        RepoUrlError::Empty => "Invalid repo format: '"@ + url
            + "'. Both owner and repo name are required (e.g. owner/repo)."@,
    }
}

/// As `parse_repo_url`, with the desktop app's longer explanations.
pub fn parse_repo_url(url: &str) -> (r: Result<(String, String), String>)
    ensures
        match repo_url_spec(url@) {
            Ok((o, n)) => r matches Ok((ro, rn)) && ro@ == o && rn@ == n,
            Err(e) => r matches Err(m) && m@ == repo_url_message_long(url@, e),
        },
{
    match parse_repo_parts(url) {
        Ok(p) => Ok(p),
        Err(e) => {
            let mut m = String::new();
            match e {
                RepoUrlError::Ssh => {
                    m.append("Cannot parse SSH URL: ");
                    m.append(url);
                    m.append(". Expected format: git@github.com:owner/repo");
                },
                RepoUrlError::GitHub => {
                    m.append("Cannot parse GitHub URL: ");
                    m.append(url);
                    m.append(". Expected format: https://github.com/owner/repo");
                },
                RepoUrlError::Short => {
                    m.append("Cannot parse '");
                    m.append(url);
                    m.append("'. Use owner/repo, a GitHub URL, or SSH URL.");
                },
                RepoUrlError::Empty => {
                    m.append("Invalid repo format: '");
                    m.append(url);
                    m.append("'. Both owner and repo name are required (e.g. owner/repo).");
                },
            }
            Err(m)
        },
    }
}

/// Whether some nest has id `id`.
pub open spec fn has_nest(nests: Seq<Nest>, id: Seq<char>) -> bool {
    exists|j: int| 0 <= j < nests.len() && #[trigger] nests[j].id@ == id
}

/// Whether some comb has id `id`.
pub open spec fn has_comb(combs: Seq<Comb>, id: Seq<char>) -> bool {
    exists|j: int| 0 <= j < combs.len() && #[trigger] combs[j].id@ == id
}

/// The first assignment, from position `k` on, that names an unknown comb or
/// an unknown nest, as the message says it.
pub open spec fn assignment_error_from(combs: Seq<Comb>, nests: Seq<Nest>, asg: Seq<CombNestAssignment>, k: int) -> Option<
    Seq<char>,
>
    decreases asg.len() - k,
{
    if k < 0 || k >= asg.len() {
        None
    } else if !has_comb(combs, asg[k].comb_id@) {
        Some("Comb '"@ + asg[k].comb_id@ + "' not found"@)
    } else if asg[k].nest_id matches Some(n) && !has_nest(nests, n@) {
        Some("Nest '"@ + asg[k].nest_id->0@ + "' not found"@)
    } else {
        assignment_error_from(combs, nests, asg, k + 1)
    }
}

/// The nest the last of the first `n` assignments for comb `id` gives it, if
/// any assignment names the comb.
pub open spec fn last_assignment(asg: Seq<CombNestAssignment>, n: int, id: Seq<char>) -> Option<Option<Seq<char>>>
    decreases n,
{
    if n <= 0 || n > asg.len() {
        None
    } else if asg[n - 1].comb_id@ == id {
        Some(opt_view(asg[n - 1].nest_id))
    } else {
        last_assignment(asg, n - 1, id)
    }
}

/// The nest a comb ends up in: the last assignment's, or its own, dropped
/// when no nest has that id.
pub open spec fn final_nest(c: Comb, nests: Seq<Nest>, asg: Seq<CombNestAssignment>) -> Option<Seq<char>> {
    let n = match last_assignment(asg, asg.len() as int, c.id@) {
        Some(x) => x,
        None => opt_view(c.nest_id),
    };
    match n {
        Some(v) => if has_nest(nests, v) {
            Some(v)
        } else {
            None
        },
        None => None,
    }
}

/// Whether `id` is the id of one of the nests.
pub fn nest_known(nests: &Vec<Nest>, id: &String) -> (r: bool)
    ensures
        r == has_nest(nests@, id@),
{
    let mut j: usize = 0;
    while j < nests.len()
        invariant
            j <= nests.len(),
            forall|t: int| 0 <= t < j ==> #[trigger] nests@[t].id@ != id@,
        decreases nests.len() - j,
    {
        if str_eq(nests[j].id.as_str(), id.as_str()) {
            return true;
        }
        j = j + 1;
    }
    false
}

fn comb_known(combs: &Vec<Comb>, id: &String) -> (r: bool)
    ensures
        r == has_comb(combs@, id@),
{
    let mut j: usize = 0;
    while j < combs.len()
        invariant
            j <= combs.len(),
            forall|t: int| 0 <= t < j ==> #[trigger] combs@[t].id@ != id@,
        decreases combs.len() - j,
    {
        if str_eq(combs[j].id.as_str(), id.as_str()) {
            return true;
        }
        j = j + 1;
    }
    false
}

/// The nest id the assignments give comb `id`, if any names it: the last one.
fn assigned_nest(asg: &Vec<CombNestAssignment>, id: &String) -> (r: Option<Option<String>>)
    ensures
        match r {
            Some(n) => last_assignment(asg@, asg@.len() as int, id@) == Some(opt_view(n)),
            None => last_assignment(asg@, asg@.len() as int, id@) is None,
        },
{
    let mut k = asg.len();
    while k > 0
        invariant
            k <= asg.len(),
            last_assignment(asg@, asg@.len() as int, id@) == last_assignment(asg@, k as int, id@),
        decreases k,
    {
        if str_eq(asg[k - 1].comb_id.as_str(), id.as_str()) {
            let n = match &asg[k - 1].nest_id {
                Some(v) => Some(v.clone()),
                None => None,
            };
            return Some(n);
        }
        k = k - 1;
    }
    None
}

/// Saves a hive's nests and moves combs between them: the nests are checked
/// (see `validate_nests`), then every assignment must name a known comb and,
/// if it names a nest, a known nest; on success each comb takes the nest of
/// the last assignment that names it, a comb left in a nest that no longer
/// exists is taken out of it, and the nests are stored with trimmed names.
pub fn save_nests(state: HiveState, nests: Vec<Nest>, assignments: Vec<CombNestAssignment>) -> (r: Result<
    HiveState,
    String,
>)
    ensures
        match nests_error_from(nests@, 0) {
            Some(m) => r matches Err(e) && e@ == m,
            None => match assignment_error_from(state.combs@, nests@, assignments@, 0) {
                Some(m) => r matches Err(e) && e@ == m,
                None => r matches Ok(s) && s.info == state.info && s.combs@.len() == state.combs@.len()
                    && (forall|i: int|
                    #![trigger s.combs@[i]]
                    0 <= i < state.combs@.len() ==> s.combs@[i] == (Comb {
                        nest_id: s.combs@[i].nest_id,
                        ..state.combs@[i]
                    }) && opt_view(s.combs@[i].nest_id) == final_nest(state.combs@[i], nests@, assignments@))
                    && s.nests@.len() == nests@.len() && (forall|j: int|
                    #![trigger s.nests@[j]]
                    0 <= j < nests@.len() ==> s.nests@[j].id == nests@[j].id && s.nests@[j].name@
                        == trimmed(nests@[j].name@)),
            },
        },
{
    match validate_nests(nests.as_slice()) {
        Err(e) => return Err(e),
        Ok(()) => {},
    }
    let mut k: usize = 0;
    while k < assignments.len()
        invariant
            k <= assignments.len(),
            nests_error_from(nests@, 0) is None,
            assignment_error_from(state.combs@, nests@, assignments@, 0) == assignment_error_from(
                state.combs@,
                nests@,
                assignments@,
                k as int,
            ),
        decreases assignments.len() - k,
    {
        let a = &assignments[k];
        if !comb_known(&state.combs, &a.comb_id) {
            let mut m = String::new();
            m.append("Comb '");
            m.append(a.comb_id.as_str());
            m.append("' not found");
            return Err(m);
        }
        match &a.nest_id {
            Some(n) => {
                if !nest_known(&nests, n) {
                    let mut m = String::new();
                    m.append("Nest '");
                    m.append(n.as_str());
                    m.append("' not found");
                    return Err(m);
                }
            },
            None => {},
        }
        k = k + 1;
    }
    let HiveState { info, nests: _old_nests, combs } = state;
    let ghost old_combs = combs@;
    let mut new_combs: Vec<Comb> = Vec::new();
    let mut rest = combs;
    assert(old_combs.subrange(0, old_combs.len() as int) =~= old_combs);
    let ghost mut i: int = 0;
    while rest.len() > 0
        invariant
            0 <= i,
            i + rest@.len() == old_combs.len(),
            rest@ == old_combs.subrange(i, old_combs.len() as int),
            new_combs@.len() == i,
            forall|t: int|
                #![trigger new_combs@[t]]
                0 <= t < i ==> new_combs@[t] == (Comb { nest_id: new_combs@[t].nest_id, ..old_combs[t] })
                    && opt_view(new_combs@[t].nest_id) == final_nest(old_combs[t], nests@, assignments@),
        decreases rest.len(),
    {
        let mut c = rest.remove(0);
        assert(c == old_combs[i]);
        assert(rest@ =~= old_combs.subrange(i + 1, old_combs.len() as int));
        match assigned_nest(&assignments, &c.id) {
            Some(n) => {
                c.nest_id = n;
            },
            None => {},
        }
        let drop = match &c.nest_id {
            Some(v) => !nest_known(&nests, v),
            None => false,
        };
        if drop {
            c.nest_id = None;
        }
        new_combs.push(c);
        proof {
            i = i + 1;
        }
    }
    let mut new_nests: Vec<Nest> = Vec::new();
    let mut j: usize = 0;
    while j < nests.len()
        invariant
            j <= nests.len(),
            new_nests@.len() == j,
            forall|t: int|
                #![trigger new_nests@[t]]
                0 <= t < j ==> new_nests@[t].id == nests@[t].id && new_nests@[t].name@ == trimmed(
                    nests@[t].name@,
                ),
        decreases nests.len() - j,
    {
        let name = to_owned_string(trim(nests[j].name.as_str()));
        new_nests.push(Nest { id: nests[j].id.clone(), name });
        j = j + 1;
    }
    Ok(HiveState { info, nests: new_nests, combs: new_combs })
}

/// The URL a new hive clones from: for an SSH reference (`git@...`) the
/// repository's SSH URL, else its web URL with `.git`; each with a GitHub
/// default when the repository did not report it.
pub open spec fn clone_url_spec(
    repo_url: Seq<char>,
    owner: Seq<char>,
    repo_name: Seq<char>,
    ssh_url: Option<Seq<char>>,
    url: Option<Seq<char>>,
) -> Seq<char> {
    if is_prefix("git@"@, repo_url) {
        match ssh_url {
            Some(u) => u,
            None => "git@github.com:"@ + owner + "/"@ + repo_name + ".git"@,
        }
    } else {
        match url {
            Some(u) => u + ".git"@,
            None => "https://github.com/"@ + owner + "/"@ + repo_name + ".git"@,
        }
    }
}

/// The metadata of a new hive from the repository's reference and what the
/// repository reported: its directory is `repo_<name>`, and it has no
/// custom buttons yet.
pub fn hive_info_for(
    repo_url: &str,
    owner: String,
    repo_name: String,
    description: Option<String>,
    default_branch: Option<String>,
    ssh_url: Option<String>,
    url: Option<String>,
) -> (r: crate::model::HiveInfo)
    ensures
        r.dir_name@ == "repo_"@ + repo_name@,
        r.repo_url@ == clone_url_spec(repo_url@, owner@, repo_name@, opt_view(ssh_url), opt_view(url)),
        r.repo_name == repo_name,
        r.owner == owner,
        r.description == description,
        r.default_branch == default_branch,
        r.custom_buttons@.len() == 0,
{
    let clone_url = if crate::text::str_starts_with(repo_url, "git@") {
        match ssh_url {
            Some(u) => u,
            None => {
                let mut u = String::new();
                u.append("git@github.com:");
                u.append(owner.as_str());
                u.append("/");
                u.append(repo_name.as_str());
                u.append(".git");
                u
            },
        }
    } else {
        match url {
            Some(u) => {
                let mut v = u;
                v.append(".git");
                v
            },
            None => {
                let mut u = String::new();
                u.append("https://github.com/");
                u.append(owner.as_str());
                u.append("/");
                u.append(repo_name.as_str());
                u.append(".git");
                u
            },
        }
    };
    let mut dir_name = String::new();
    dir_name.append("repo_");
    dir_name.append(repo_name.as_str());
    crate::model::HiveInfo {
        dir_name,
        repo_url: clone_url,
        repo_name,
        owner,
        description,
        default_branch,
        custom_buttons: Vec::new(),
    }
}

/// A hive can be deleted only while none of its combs has an operation in
/// progress.
pub fn check_hive_deletable(combs: &Vec<Comb>) -> (r: Result<(), String>)
    ensures
        (exists|i: int| 0 <= i < combs@.len() && (#[trigger] combs@[i]).operation is Some) ==> (r matches Err(
            m,
        ) && m@ == "Cannot delete hive while comb operations are in progress"@),
        (forall|i: int| 0 <= i < combs@.len() ==> (#[trigger] combs@[i]).operation is None) ==> r is Ok,
{
    let mut i: usize = 0;
    while i < combs.len()
        invariant
            i <= combs.len(),
            forall|t: int| 0 <= t < i ==> (#[trigger] combs@[t]).operation is None,
        decreases combs.len() - i,
    {
        if combs[i].operation.is_some() {
            return Err(to_owned_string("Cannot delete hive while comb operations are in progress"));
        }
        i = i + 1;
    }
    Ok(())
}


/// The error for a comb that is not in the hive.
pub open spec fn comb_missing_message(id: Seq<char>) -> Seq<char> {
    "Comb '"@ + id + "' not found"@
}

fn comb_missing(id: &str) -> (r: String)
    ensures
        r@ == comb_missing_message(id@),
{
    let mut m = to_owned_string("Comb '");
    m.append(id);
    m.append("' not found");
    m
}

/// `after` is `before` with the pane layout of the first comb with id `id`
/// replaced by `panes` (unchanged when no comb has the id).
pub open spec fn panes_saved(before: Seq<Comb>, after: Seq<Comb>, id: Seq<char>, panes: Vec<PaneConfig>) -> bool {
    match comb_index(before, id) {
        Some(i) => after == before.update(i, Comb { panes, ..before[i] }),
        None => after == before,
    }
}

/// Two pane lists with the same content.
pub open spec fn panes_same(a: Seq<PaneConfig>, b: Seq<PaneConfig>) -> bool {
    a.len() == b.len() && forall|k: int| 0 <= k < a.len() ==> #[trigger] a[k].same(b[k])
}

/// `r` is what reading the pane layout of comb `id` from `combs` gives.
pub open spec fn panes_read(combs: Seq<Comb>, id: Seq<char>, r: Result<Vec<PaneConfig>, String>) -> bool {
    match comb_index(combs, id) {
        Some(i) => r matches Ok(p) && panes_same(p@, combs[i].panes@),
        None => r matches Err(e) && e@ == comb_missing_message(id),
    }
}

/// Saves the pane layout of comb `comb_id` of a hive; an error when the hive
/// has no such comb.
pub fn set_comb_panes(combs: &mut Vec<Comb>, comb_id: &String, panes: Vec<PaneConfig>) -> (r: Result<(), String>)
    ensures
        panes_saved(old(combs)@, final(combs)@, comb_id@, panes),
        comb_index(old(combs)@, comb_id@) is Some ==> r is Ok,
        comb_index(old(combs)@, comb_id@) is None ==> (r matches Err(e) && e@ == comb_missing_message(comb_id@)),
{
    proof {
        lemma_comb_index(combs@, comb_id@);
    }
    match comb_position(combs, comb_id) {
        Some(i) => {
            let c = &mut combs[i];
            c.panes = panes;
            Ok(())
        },
        None => Err(comb_missing(comb_id.as_str())),
    }
}

/// The pane layout of comb `comb_id` of a hive; an error when the hive has
/// no such comb.
pub fn comb_panes(combs: &Vec<Comb>, comb_id: &String) -> (r: Result<Vec<PaneConfig>, String>)
    ensures
        panes_read(combs@, comb_id@, r),
{
    proof {
        lemma_comb_index(combs@, comb_id@);
    }
    match comb_position(combs, comb_id) {
        Some(i) => Ok(clone_panes(&combs[i].panes)),
        None => Err(comb_missing(comb_id.as_str())),
    }
}

/// A saved layout reads back: once the pane layout of a comb is saved,
/// reading that comb's layout gives the panes saved.
pub proof fn lemma_panes_read_back(
    before: Seq<Comb>,
    after: Seq<Comb>,
    id: Seq<char>,
    panes: Vec<PaneConfig>,
    r: Result<Vec<PaneConfig>, String>,
)
    requires
        comb_index(before, id) is Some,
        panes_saved(before, after, id, panes),
        panes_read(after, id, r),
    ensures
        r matches Ok(p) && panes_same(p@, panes@),
{
    lemma_comb_index(before, id);
    lemma_comb_index(after, id);
    let i = comb_index(before, id)->0;
    assert(after[i].id@ == id);
    assert forall|t: int| 0 <= t < i implies after[t].id@ != id by {
        assert(after[t] == before[t]);
    }
    assert(comb_index(after, id) == Some(i));
}

/// The names the command-line tool can be installed as.
pub open spec fn cli_name_ok(name: Seq<char>) -> bool {
    name == "bh"@ || name == "beehive"@
}

/// Checks the name to install the command-line tool as: `bh` or `beehive`.
pub fn check_cli_name(cmd_name: &str) -> (r: Result<(), String>)
    ensures
        cli_name_ok(cmd_name@) ==> r is Ok,
        !cli_name_ok(cmd_name@) ==> (r matches Err(e) && e@ == "Command name must be 'bh' or 'beehive'"@),
{
    proof {
        reveal_strlit("bh");
        reveal_strlit("beehive");
    }
    if str_eq(cmd_name, "bh") || str_eq(cmd_name, "beehive") {
        Ok(())
    } else {
        Err(to_owned_string("Command name must be 'bh' or 'beehive'"))
    }
}

/// Where the command-line tool named `name` is installed.
pub open spec fn cli_path_spec(name: Seq<char>) -> Seq<char> {
    "/usr/local/bin/"@ + name
}

/// Where the command-line tool named `cmd_name` is installed.
pub fn cli_install_path(cmd_name: &str) -> (r: String)
    ensures
        r@ == cli_path_spec(cmd_name@),
{
    let mut r = to_owned_string("/usr/local/bin/");
    r.append(cmd_name);
    r
}

/// The name the command-line tool is installed as: the name chosen at
/// install (`preferred`) when it is installed (`preferred_installed`), else
/// `bh` or else `beehive` when one of them is.
pub open spec fn installed_cli_spec(
    preferred: Option<Seq<char>>,
    preferred_installed: bool,
    bh_installed: bool,
    beehive_installed: bool,
) -> Option<Seq<char>> {
    if preferred is Some && preferred_installed {
        preferred
    } else if bh_installed {
        Some("bh"@)
    } else if beehive_installed {
        Some("beehive"@)
    } else {
        None
    }
}

/// Whether the command-line tool is installed, and as what: see
/// `installed_cli_spec` (the same choice picks the file an uninstall
/// removes).
pub fn cli_status(
    preferred: Option<String>,
    preferred_installed: bool,
    bh_installed: bool,
    beehive_installed: bool,
) -> (r: CliStatusResult)
    ensures
        ({
            let chosen = installed_cli_spec(
                match preferred {
                    Some(p) => Some(p@),
                    None => None,
                },
                preferred_installed,
                bh_installed,
                beehive_installed,
            );
            &&& r.installed == chosen is Some
            &&& match chosen {
                Some(n) => (r.cmd_name matches Some(c) && c@ == n) && (r.path matches Some(p) && p@
                    == cli_path_spec(n)),
                None => r.cmd_name is None && r.path is None,
            }
        }),
{
    let name: Option<String> = match preferred {
        Some(p) => if preferred_installed {
            Some(p)
        } else if bh_installed {
            Some(to_owned_string("bh"))
        } else if beehive_installed {
            Some(to_owned_string("beehive"))
        } else {
            None
        },
        None => if bh_installed {
            Some(to_owned_string("bh"))
        } else if beehive_installed {
            Some(to_owned_string("beehive"))
        } else {
            None
        },
    };
    match name {
        Some(n) => {
            let path = cli_install_path(n.as_str());
            CliStatusResult { installed: true, cmd_name: Some(n), path: Some(path) }
        },
        None => CliStatusResult { installed: false, cmd_name: None, path: None },
    }
}


/// Why `validate_comb_name` refuses `name` among `combs`, if it does.
pub open spec fn comb_name_refusal(name: Seq<char>, combs: Seq<Comb>) -> Option<Seq<char>> {
    match comb_name_rule(name) {
        Some(e) => Some(comb_name_message(name, e)),
        None => if exists|i: int|
            #![trigger combs[i]]
            0 <= i < combs.len() && (combs[i].name@ == name || path_file_name(combs[i].path@) == Some(name)) {
            Some(comb_name_message(name, CombNameError::Taken))
        } else {
            None
        },
    }
}

/// The record of a comb whose clone is starting: no nest, no panes, marked
/// as cloning.
pub fn cloning_comb(id: String, name: String, branch: String, path: String, created_at: String) -> (r: Comb)
    ensures
        r == (Comb {
            id,
            name,
            branch,
            path,
            created_at,
            nest_id: None,
            panes: r.panes,
            cloning: true,
            operation: r.operation,
        }),
        r.panes@.len() == 0,
        r.operation matches Some(op) && op@ == "cloning"@,
{
    Comb {
        id,
        name,
        branch,
        path,
        created_at,
        nest_id: None,
        panes: Vec::new(),
        cloning: true,
        operation: Some(to_owned_string("cloning")),
    }
}

/// Adds a new comb to a hive's combs, after checking its name against them
/// (`validate_comb_name`); refused, with the reason, otherwise.
pub fn add_comb(combs: &mut Vec<Comb>, comb: Comb) -> (r: Result<(), String>)
    ensures
        match comb_name_refusal(comb.name@, old(combs)@) {
            Some(m) => (r matches Err(e) && e@ == m) && final(combs)@ == old(combs)@,
            None => r is Ok && final(combs)@ == old(combs)@.push(comb),
        },
{
    match validate_comb_name(comb.name.as_str(), combs.as_slice()) {
        Ok(()) => {
            combs.push(comb);
            Ok(())
        },
        Err(e) => Err(e),
    }
}

/// The error for a copy whose source is not in the hive.
pub open spec fn source_missing_message(id: Seq<char>) -> Seq<char> {
    "Source comb '"@ + id + "' not found"@
}

/// Whether a comb is being deleted.
pub open spec fn is_deleting(c: Comb) -> bool {
    c.operation matches Some(op) && op@ == "deleting"@
}

/// The record of a copy of comb `source_comb_id`, being made: it has the
/// source's branch and nest, no panes, and is marked as copying. Refused
/// when the source is not in the hive or is being deleted.
pub fn copy_of(
    combs: &Vec<Comb>,
    source_comb_id: &String,
    id: String,
    name: String,
    path: String,
    created_at: String,
) -> (r: Result<Comb, String>)
    ensures
        match comb_index(combs@, source_comb_id@) {
            None => r matches Err(e) && e@ == source_missing_message(source_comb_id@),
            Some(i) => if is_deleting(combs@[i]) {
                r matches Err(e) && e@ == "Cannot copy a comb that is being deleted"@
            } else {
                r matches Ok(c) && c.id == id && c.name == name && c.path == path && c.created_at == created_at
                    && c.branch@ == combs@[i].branch@ && opt_view(c.nest_id) == opt_view(combs@[i].nest_id)
                    && c.panes@.len() == 0 && !c.cloning && (c.operation matches Some(op) && op@ == "copying"@)
            },
        },
{
    proof {
        lemma_comb_index(combs@, source_comb_id@);
        reveal_strlit("deleting");
    }
    match comb_position(combs, source_comb_id) {
        None => {
            let mut m = to_owned_string("Source comb '");
            m.append(source_comb_id.as_str());
            m.append("' not found");
            Err(m)
        },
        Some(i) => {
            let source = &combs[i];
            let deleting = match &source.operation {
                Some(op) => str_eq(op.as_str(), "deleting"),
                None => false,
            };
            if deleting {
                return Err(to_owned_string("Cannot copy a comb that is being deleted"));
            }
            let nest_id = match &source.nest_id {
                Some(n) => Some(n.clone()),
                None => None,
            };
            Ok(Comb {
                id,
                name,
                branch: source.branch.clone(),
                path,
                created_at,
                nest_id,
                panes: Vec::new(),
                cloning: false,
                operation: Some(to_owned_string("copying")),
            })
        },
    }
}

} // verus!
