//! Keys in the text prompt, the comb finder and the branch picker: cursor
//! movement and editing of the typed text, moving the selection through the
//! filtered list, and what Enter and Esc decide.

use vstd::prelude::*;

use crate::finder::{filter_comb_finder_targets, finder_order, CombFinderTarget};
use crate::fuzzy::{fuzzy_filter_order, fuzzy_filter_strings, lemma_rank_sorted_unique};
use crate::keys::KeyCode;
use crate::repo::chars_to_string;
use crate::text::{lowercase_of, str_chars, trimmed};

verus! {

/// `s` with `c` inserted before position `k` (at the end when `k` is past it).
pub open spec fn insert_char_at(s: Seq<char>, k: int, c: char) -> Seq<char> {
    let p = if k < s.len() {
        k
    } else {
        s.len() as int
    };
    s.subrange(0, p).push(c) + s.subrange(p, s.len() as int)
}

/// `s` without the character at position `k`.
pub open spec fn remove_char_at(s: Seq<char>, k: int) -> Seq<char> {
    s.subrange(0, k) + s.subrange(k + 1, s.len() as int)
}

/// Inserts `c` before the character at position `at` (appends when `at` is
/// past the end).
pub fn insert_char(text: &mut String, at: usize, c: char)
    ensures
        final(text)@ == insert_char_at(old(text)@, at as int, c),
{
    let v = str_chars(text.as_str());
    let p = if at < v.len() {
        at
    } else {
        v.len()
    };
    let mut w: Vec<char> = Vec::new();
    let mut i: usize = 0;
    while i < p
        invariant
            p <= v.len(),
            i <= p,
            w@ == v@.subrange(0, i as int),
        decreases p - i,
    {
        w.push(v[i]);
        assert(w@ =~= v@.subrange(0, i + 1));
        i = i + 1;
    }
    w.push(c);
    let ghost head = w@;
    while i < v.len()
        invariant
            p <= i <= v.len(),
            w@ == head + v@.subrange(p as int, i as int),
        decreases v.len() - i,
    {
        w.push(v[i]);
        assert(w@ =~= head + v@.subrange(p as int, i + 1));
        i = i + 1;
    }
    *text = chars_to_string(&w);
}

/// Removes the character at position `at`.
pub fn remove_char(text: &mut String, at: usize)
    requires
        at < old(text)@.len(),
    ensures
        final(text)@ == remove_char_at(old(text)@, at as int),
{
    let v = str_chars(text.as_str());
    let mut w: Vec<char> = Vec::new();
    let mut i: usize = 0;
    while i < v.len()
        invariant
            at < v.len(),
            i <= v.len(),
            w@ == (if i <= at {
                v@.subrange(0, i as int)
            } else {
                v@.subrange(0, at as int) + v@.subrange(at + 1, i as int)
            }),
        decreases v.len() - i,
    {
        if i != at {
            w.push(v[i]);
        }
        proof {
            if i < at {
                assert(w@ =~= v@.subrange(0, i + 1));
            } else if i == at {
                assert(v@.subrange(at + 1, i + 1) =~= Seq::<char>::empty());
                assert(w@ =~= v@.subrange(0, at as int) + v@.subrange(at + 1, i + 1));
            } else {
                assert(w@ =~= v@.subrange(0, at as int) + v@.subrange(at + 1, i + 1));
            }
        }
        i = i + 1;
    }
    *text = chars_to_string(&w);
}

/// What a key in the text prompt decides.
#[derive(Clone, Copy, Debug, PartialEq, Eq, Structural)]
pub enum InputKeyOutcome {
    /// Esc: close the prompt.
    Cancel,
    /// Enter: act on the value.
    Submit,
    /// Any other key: the value and cursor are as the key left them.
    Stay,
}

/// The value and cursor after an editing key in the text prompt.
pub open spec fn input_edit(value: Seq<char>, cursor: int, code: KeyCode) -> (Seq<char>, int) {
    match code {
        KeyCode::Left => (value, if cursor > 0 { cursor - 1 } else { cursor }),
        KeyCode::Right => (value, if cursor < value.len() { cursor + 1 } else { cursor }),
        KeyCode::Home => (value, 0),
        KeyCode::End => (value, value.len() as int),
        KeyCode::Char(c) => (insert_char_at(value, cursor, c), cursor + 1),
        KeyCode::Backspace => if cursor > 0 {
            (remove_char_at(value, cursor - 1), cursor - 1)
        } else {
            (value, cursor)
        },
        KeyCode::Delete => if cursor < value.len() {
            (remove_char_at(value, cursor), cursor)
        } else {
            (value, cursor)
        },
        _ => (value, cursor),
    }
}

/// Typing a character and then Backspace leaves the text and the cursor as
/// they were (with the cursor within the text).
pub proof fn lemma_type_then_backspace(value: Seq<char>, cursor: int, c: char)
    requires
        0 <= cursor <= value.len(),
    ensures
        ({
            let typed = input_edit(value, cursor, KeyCode::Char(c));
            input_edit(typed.0, typed.1, KeyCode::Backspace) == (value, cursor)
        }),
{
    let v1 = insert_char_at(value, cursor, c);
    assert(remove_char_at(v1, cursor) =~= value);
}

/// Handles a key in the text prompt: Esc cancels, Enter submits, the arrows,
/// Home and End move the cursor, a character is inserted at the cursor (at
/// the end when the cursor is past it), Backspace and Delete remove the
/// character before or at the cursor. The cursor counts characters.
pub fn input_key(value: &mut String, cursor: &mut usize, code: &KeyCode) -> (r: InputKeyOutcome)
    requires
        *old(cursor) < usize::MAX,
        old(value)@.len() < usize::MAX,
        *code == KeyCode::Backspace && *old(cursor) > 0 ==> *old(cursor) - 1 < old(value)@.len(),
    ensures
        r == (match *code {
            KeyCode::Esc => InputKeyOutcome::Cancel,
            KeyCode::Enter => InputKeyOutcome::Submit,
            _ => InputKeyOutcome::Stay,
        }),
        r == InputKeyOutcome::Stay ==> (final(value)@, *final(cursor) as int) == input_edit(
            old(value)@,
            *old(cursor) as int,
            *code,
        ),
        r != InputKeyOutcome::Stay ==> final(value)@ == old(value)@ && *final(cursor) == *old(cursor),
        *old(cursor) <= old(value)@.len() ==> *final(cursor) <= final(value)@.len(),
{
    match code {
        KeyCode::Esc => InputKeyOutcome::Cancel,
        KeyCode::Enter => InputKeyOutcome::Submit,
        _ => {
            edit_key(value, cursor, code);
            InputKeyOutcome::Stay
        },
    }
}

/// Applies an editing key to a value and its cursor.
fn edit_key(value: &mut String, cursor: &mut usize, code: &KeyCode)
    requires
        *old(cursor) < usize::MAX,
        old(value)@.len() < usize::MAX,
        *code == KeyCode::Backspace && *old(cursor) > 0 ==> *old(cursor) - 1 < old(value)@.len(),
    ensures
        (final(value)@, *final(cursor) as int) == input_edit(old(value)@, *old(cursor) as int, *code),
        *old(cursor) <= old(value)@.len() ==> *final(cursor) <= final(value)@.len(),
{
    let n = str_chars(value.as_str()).len();
    match code {
        KeyCode::Left => {
            if *cursor > 0 {
                *cursor = *cursor - 1;
            }
        },
        KeyCode::Right => {
            if *cursor < n {
                *cursor = *cursor + 1;
            }
        },
        KeyCode::Home => {
            *cursor = 0;
        },
        KeyCode::End => {
            *cursor = n;
        },
        KeyCode::Char(c) => {
            insert_char(value, *cursor, *c);
            *cursor = *cursor + 1;
        },
        KeyCode::Backspace => {
            if *cursor > 0 {
                *cursor = *cursor - 1;
                remove_char(value, *cursor);
            }
        },
        KeyCode::Delete => {
            if *cursor < n {
                remove_char(value, *cursor);
            }
        },
        _ => {},
    }
}

/// The filter text and its cursor after a key that edits a picker's filter
/// (the characters `j` and `k` move the comb finder's selection instead).
pub open spec fn filter_edit(filter: Seq<char>, cursor: int, code: KeyCode) -> (Seq<char>, int) {
    match code {
        KeyCode::Left => (filter, if cursor > 0 { cursor - 1 } else { cursor }),
        KeyCode::Right => (filter, if cursor < filter.len() { cursor + 1 } else { cursor }),
        KeyCode::Char(c) => (insert_char_at(filter, cursor, c), cursor + 1),
        KeyCode::Backspace => if cursor > 0 {
            (remove_char_at(filter, cursor - 1), cursor - 1)
        } else {
            (filter, cursor)
        },
        _ => (filter, cursor),
    }
}

/// Whether a key types into a picker's filter (and so resets the selection).
pub open spec fn changes_filter(filter: Seq<char>, cursor: int, code: KeyCode) -> bool {
    match code {
        KeyCode::Char(_) => true,
        KeyCode::Backspace => cursor > 0,
        _ => false,
    }
}

/// The selection after Up in a list of `count` entries: one up, wrapping from
/// the top to the bottom.
pub open spec fn select_up(selected: int, count: int) -> int {
    if selected > 0 {
        selected - 1
    } else if count > 0 {
        count - 1
    } else {
        selected
    }
}

/// The selection after Down in a list of `count` entries: one down, stopping
/// at the bottom.
pub open spec fn select_down(selected: int, count: int) -> int {
    if selected + 1 < count {
        selected + 1
    } else {
        selected
    }
}

/// `list` is what the comb finder shows for `filter`: every target in order
/// when the trimmed, lowercased filter is empty, else the ranked matches.
pub open spec fn finder_shows(targets: Seq<CombFinderTarget>, filter: Seq<char>, list: Seq<CombFinderTarget>) -> bool {
    let f = lowercase_of(trimmed(filter));
    if f.len() == 0 {
        list == targets
    } else {
        exists|order: Seq<usize>|
            {
                &&& #[trigger] finder_order(targets, f, order)
                &&& list.len() == order.len()
                &&& forall|k: int| 0 <= k < order.len() ==> list[k] == targets[order[k] as int]
            }
    }
}

/// The targets the comb finder shows, as values.
/// The comb finder shows one list for given targets and filter.
pub proof fn lemma_finder_shows_unique(
    targets: Seq<CombFinderTarget>,
    filter: Seq<char>,
    l1: Seq<CombFinderTarget>,
    l2: Seq<CombFinderTarget>,
)
    requires
        finder_shows(targets, filter, l1),
        finder_shows(targets, filter, l2),
    ensures
        l1 == l2,
{
    let f = lowercase_of(trimmed(filter));
    if f.len() > 0 {
        let o1 = choose|order: Seq<usize>|
            {
                &&& #[trigger] finder_order(targets, f, order)
                &&& l1.len() == order.len()
                &&& forall|k: int| 0 <= k < order.len() ==> l1[k] == targets[order[k] as int]
            };
        let o2 = choose|order: Seq<usize>|
            {
                &&& #[trigger] finder_order(targets, f, order)
                &&& l2.len() == order.len()
                &&& forall|k: int| 0 <= k < order.len() ==> l2[k] == targets[order[k] as int]
            };
        assert forall|x: usize| o1.contains(x) <==> o2.contains(x) by {
            assert(o1.contains(x) <==> (x < targets.len() && crate::finder::finder_score(f, targets[x as int]) is Some));
            assert(o2.contains(x) <==> (x < targets.len() && crate::finder::finder_score(f, targets[x as int]) is Some));
        }
        lemma_rank_sorted_unique(crate::finder::finder_keys(targets, f), o1, o2);
        assert(l1 =~= l2);
    }
}

pub(crate) fn finder_list<'a>(targets: &'a [CombFinderTarget], filter: &str) -> (r: Vec<&'a CombFinderTarget>)
    ensures
        finder_shows(targets@, filter@, r@.map_values(|t: &CombFinderTarget| *t)),
{
    let r = filter_comb_finder_targets(targets, filter);
    proof {
        let list = r@.map_values(|t: &CombFinderTarget| *t);
        let f = lowercase_of(trimmed(filter@));
        if f.len() == 0 {
            assert(list =~= targets@);
        } else {
            let order = choose|order: Seq<usize>|
                {
                    &&& #[trigger] finder_order(targets@, f, order)
                    &&& r@.len() == order.len()
                    &&& forall|k: int| 0 <= k < order.len() ==> *r@[k] == targets@[order[k] as int]
                };
            assert(finder_order(targets@, f, order));
        }
    }
    r
}

/// What a key in the comb finder decides.
pub enum FinderKeyOutcome {
    /// Esc: close the finder.
    Close,
    /// Enter on a listed comb: close the finder and jump to that comb.
    Jump { hive_dir_name: String, comb_id: String, comb_name: String },
    /// Enter with nothing listed at the selection: close the finder.
    NoMatch,
    /// The finder stays open with its filter, cursor and selection updated.
    Stay,
}

/// What a key in the comb finder decides (`r`), given the combs `list` it
/// shows, and the filter, cursor and selection it leaves when it stays open.
pub open spec fn finder_step(
    list: Seq<CombFinderTarget>,
    filter: Seq<char>,
    cursor: int,
    selected: int,
    code: KeyCode,
    r: FinderKeyOutcome,
    filter2: Seq<char>,
    cursor2: int,
    selected2: int,
) -> bool {
    match code {
        KeyCode::Esc => r is Close,
        KeyCode::Enter => if 0 <= selected < list.len() {
            r matches FinderKeyOutcome::Jump { hive_dir_name, comb_id, comb_name } && hive_dir_name@
                == list[selected].hive_dir_name@ && comb_id@ == list[selected].comb_id@ && comb_name@
                == list[selected].comb_name@
        } else {
            r is NoMatch
        },
        KeyCode::Up | KeyCode::Char('k') => r is Stay && filter2 == filter && cursor2 == cursor && selected2
            == select_up(selected, list.len() as int),
        KeyCode::Down | KeyCode::Char('j') => r is Stay && filter2 == filter && cursor2 == cursor && selected2
            == select_down(selected, list.len() as int),
        _ => r is Stay && (filter2, cursor2) == filter_edit(filter, cursor, code) && selected2 == (if changes_filter(
            filter,
            cursor,
            code,
        ) {
            0
        } else {
            selected
        }),
    }
}

/// Handles a key in the comb finder. Up or `k` and Down or `j` move the
/// selection through the listed combs (Up wraps to the bottom); Left and
/// Right move the filter cursor; another character is typed into the filter
/// and Backspace deletes the one before the cursor, both resetting the
/// selection; Enter picks the selected comb; Esc closes.
pub fn comb_finder_key(
    targets: &Vec<CombFinderTarget>,
    filter: &mut String,
    filter_cursor: &mut usize,
    selected: &mut usize,
    code: &KeyCode,
) -> (r: FinderKeyOutcome)
    requires
        *old(filter_cursor) <= old(filter)@.len() < usize::MAX,
    ensures
        *final(filter_cursor) <= final(filter)@.len(),
        exists|list: Seq<CombFinderTarget>|
            #![trigger finder_shows(targets@, old(filter)@, list)]
            finder_shows(targets@, old(filter)@, list) && finder_step(
                list,
                old(filter)@,
                *old(filter_cursor) as int,
                *old(selected) as int,
                *code,
                r,
                final(filter)@,
                *final(filter_cursor) as int,
                *final(selected) as int,
            ),
{
    let shown = finder_list(targets.as_slice(), filter.as_str());
    let ghost list = shown@.map_values(|t: &CombFinderTarget| *t);
    let count = shown.len();
    match code {
        KeyCode::Esc => FinderKeyOutcome::Close,
        KeyCode::Enter => {
            if *selected < count {
                let t = shown[*selected];
                FinderKeyOutcome::Jump {
                    hive_dir_name: t.hive_dir_name.clone(),
                    comb_id: t.comb_id.clone(),
                    comb_name: t.comb_name.clone(),
                }
            } else {
                FinderKeyOutcome::NoMatch
            }
        },
        KeyCode::Up | KeyCode::Char('k') => {
            if *selected > 0 {
                *selected = *selected - 1;
            } else if count > 0 {
                *selected = count - 1;
            }
            FinderKeyOutcome::Stay
        },
        KeyCode::Down | KeyCode::Char('j') => {
            if *selected < count && *selected + 1 < count {
                *selected = *selected + 1;
            }
            FinderKeyOutcome::Stay
        },
        _ => {
            let typed = match code {
                KeyCode::Char(_) => true,
                KeyCode::Backspace => *filter_cursor > 0,
                _ => false,
            };
            filter_key(filter, filter_cursor, code);
            if typed {
                *selected = 0;
            }
            FinderKeyOutcome::Stay
        },
    }
}

/// Applies a filter-editing key (Left, Right, a character, Backspace).
fn filter_key(filter: &mut String, cursor: &mut usize, code: &KeyCode)
    requires
        *old(cursor) <= old(filter)@.len() < usize::MAX,
    ensures
        (final(filter)@, *final(cursor) as int) == filter_edit(old(filter)@, *old(cursor) as int, *code),
        *final(cursor) <= final(filter)@.len(),
{
    let n = str_chars(filter.as_str()).len();
    match code {
        KeyCode::Left => {
            if *cursor > 0 {
                *cursor = *cursor - 1;
            }
        },
        KeyCode::Right => {
            if *cursor < n {
                *cursor = *cursor + 1;
            }
        },
        KeyCode::Char(c) => {
            insert_char(filter, *cursor, *c);
            *cursor = *cursor + 1;
        },
        KeyCode::Backspace => {
            if *cursor > 0 {
                *cursor = *cursor - 1;
                remove_char(filter, *cursor);
            }
        },
        _ => {},
    }
}

/// `list` is what the branch picker shows for `filter`: every branch in
/// order when the trimmed filter is empty, else the ranked matches.
pub open spec fn branches_shown(branches: Seq<String>, filter: Seq<char>, list: Seq<String>) -> bool {
    let q = trimmed(filter);
    if q.len() == 0 {
        list == branches
    } else {
        exists|order: Seq<usize>|
            {
                &&& #[trigger] fuzzy_filter_order(branches, q, order)
                &&& list.len() == order.len()
                &&& forall|k: int| 0 <= k < order.len() ==> list[k] == branches[order[k] as int]
            }
    }
}

/// The branches the picker shows, as values.
fn branch_list<'a>(branches: &'a [String], filter: &str) -> (r: Vec<&'a String>)
    ensures
        branches_shown(branches@, filter@, r@.map_values(|b: &String| *b)),
{
    let r = fuzzy_filter_strings(branches, filter);
    proof {
        let list = r@.map_values(|b: &String| *b);
        let q = trimmed(filter@);
        if q.len() == 0 {
            assert(list =~= branches@);
        } else {
            let order = choose|order: Seq<usize>|
                {
                    &&& #[trigger] fuzzy_filter_order(branches@, q, order)
                    &&& r@.len() == order.len()
                    &&& forall|k: int| 0 <= k < order.len() ==> *r@[k] == branches@[order[k] as int]
                };
            assert(fuzzy_filter_order(branches@, q, order));
        }
    }
    r
}

/// What a key in the branch picker decides.
pub enum BranchKeyOutcome {
    /// Esc: close the picker.
    Close,
    /// Enter: create the comb on this branch.
    Create { branch: String },
    /// The picker stays open with its filter, cursor and selection updated.
    Stay,
}

/// The branch Enter picks: the selected listed branch; the default branch
/// when the selection is past the list; with nothing listed, the typed filter
/// as a new branch name, or the default branch when nothing was typed.
pub open spec fn picked_branch(list: Seq<String>, filter: Seq<char>, default_branch: Seq<char>, selected: int) -> Seq<char> {
    if list.len() == 0 {
        if filter.len() == 0 {
            default_branch
        } else {
            filter
        }
    } else if 0 <= selected < list.len() {
        list[selected]@
    } else {
        default_branch
    }
}

/// What a key in the branch picker decides (`r`), given the branches `list`
/// it shows, and the filter, cursor and selection it leaves when it stays
/// open.
pub open spec fn branch_step(
    list: Seq<String>,
    default_branch: Seq<char>,
    filter: Seq<char>,
    cursor: int,
    selected: int,
    code: KeyCode,
    r: BranchKeyOutcome,
    filter2: Seq<char>,
    cursor2: int,
    selected2: int,
) -> bool {
    match code {
        KeyCode::Esc => r is Close,
        KeyCode::Enter => r matches BranchKeyOutcome::Create { branch } && branch@ == picked_branch(
            list,
            filter,
            default_branch,
            selected,
        ),
        KeyCode::Up => r is Stay && filter2 == filter && cursor2 == cursor && selected2 == select_up(
            selected,
            list.len() as int,
        ),
        KeyCode::Down => r is Stay && filter2 == filter && cursor2 == cursor && selected2 == select_down(
            selected,
            list.len() as int,
        ),
        _ => r is Stay && (filter2, cursor2) == filter_edit(filter, cursor, code) && selected2 == (if changes_filter(
            filter,
            cursor,
            code,
        ) {
            0
        } else {
            selected
        }),
    }
}

/// Handles a key in the branch picker. Up and Down move the selection through
/// the listed branches (Up wraps to the bottom); Left and Right move the
/// filter cursor; a character is typed into the filter and Backspace deletes
/// the one before the cursor, both resetting the selection; Enter picks the
/// branch to create the comb on; Esc closes.
pub fn branch_picker_key(
    branches: &Vec<String>,
    default_branch: &String,
    filter: &mut String,
    filter_cursor: &mut usize,
    selected: &mut usize,
    code: &KeyCode,
) -> (r: BranchKeyOutcome)
    requires
        *old(filter_cursor) <= old(filter)@.len() < usize::MAX,
    ensures
        *final(filter_cursor) <= final(filter)@.len(),
        exists|list: Seq<String>|
            #![trigger branches_shown(branches@, old(filter)@, list)]
            branches_shown(branches@, old(filter)@, list) && branch_step(
                list,
                default_branch@,
                old(filter)@,
                *old(filter_cursor) as int,
                *old(selected) as int,
                *code,
                r,
                final(filter)@,
                *final(filter_cursor) as int,
                *final(selected) as int,
            ),
{
    let shown = branch_list(branches.as_slice(), filter.as_str());
    let count = shown.len();
    match code {
        KeyCode::Esc => BranchKeyOutcome::Close,
        KeyCode::Enter => {
            let branch = if count == 0 {
                if filter.as_str().is_empty() {
                    default_branch.clone()
                } else {
                    filter.clone()
                }
            } else if *selected < count {
                shown[*selected].clone()
            } else {
                default_branch.clone()
            };
            BranchKeyOutcome::Create { branch }
        },
        KeyCode::Up => {
            if *selected > 0 {
                *selected = *selected - 1;
            } else if count > 0 {
                *selected = count - 1;
            }
            BranchKeyOutcome::Stay
        },
        KeyCode::Down => {
            if *selected < count && *selected + 1 < count {
                *selected = *selected + 1;
            }
            BranchKeyOutcome::Stay
        },
        _ => {
            let typed = match code {
                KeyCode::Char(_) => true,
                KeyCode::Backspace => *filter_cursor > 0,
                _ => false,
            };
            filter_key(filter, filter_cursor, code);
            if typed {
                *selected = 0;
            }
            BranchKeyOutcome::Stay
        },
    }
}

} // verus!
