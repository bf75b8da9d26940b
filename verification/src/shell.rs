//! Which login shell a terminal pane starts: `$SHELL` (trimmed) when it names
//! an executable file, else the first executable fallback, else `$SHELL`
//! anyway, else `/bin/sh`. Whether a file is executable is asked of the
//! file system by the caller.

use vstd::prelude::*;

use crate::text::{to_owned_string, trim, trimmed};

verus! {

/// `$SHELL` trimmed, when that leaves something.
pub open spec fn shell_from_env(shell_env: Option<&str>) -> Option<Seq<char>> {
    match shell_env {
        Some(s) => if trimmed(s@).len() > 0 {
            Some(trimmed(s@))
        } else {
            None
        },
        None => None,
    }
}

/// The shells to try, in order: `$SHELL` (trimmed, when not empty), then the
/// fallbacks.
pub open spec fn shell_candidates(shell_env: Option<&str>, fallbacks: Seq<&str>) -> Seq<Seq<char>> {
    (match shell_from_env(shell_env) {
        Some(t) => seq![t],
        None => Seq::empty(),
    }) + fallbacks.map_values(|f: &str| f@)
}

/// The first position among the first `n` whose flag is set.
pub open spec fn first_set(flags: Seq<bool>, n: int) -> Option<int>
    decreases n,
{
    if n <= 0 || n > flags.len() {
        None
    } else {
        match first_set(flags, n - 1) {
            Some(i) => Some(i),
            None => if flags[n - 1] {
                Some(n - 1)
            } else {
                None
            },
        }
    }
}

/// The trimmed `$SHELL`, when it is not empty.
fn env_shell(shell_env: Option<&str>) -> (r: Option<String>)
    ensures
        match r {
            Some(s) => shell_from_env(shell_env) == Some(s@),
            None => shell_from_env(shell_env) is None,
        },
{
    match shell_env {
        Some(s) => {
            let t = trim(s);
            if crate::text::str_chars(t).len() > 0 {
                Some(to_owned_string(t))
            } else {
                None
            }
        },
        None => None,
    }
}

/// The shells to try, in order: `$SHELL` (trimmed, when not empty), then the
/// fallbacks.
pub fn login_shell_candidates(shell_env: Option<&str>, fallbacks: &[&str]) -> (r: Vec<String>)
    ensures
        r@.map_values(|s: String| s@) == shell_candidates(shell_env, fallbacks@),
{
    let mut r: Vec<String> = Vec::new();
    match env_shell(shell_env) {
        Some(s) => r.push(s),
        None => {},
    }
    let ghost head = r@.map_values(|s: String| s@);
    let mut i: usize = 0;
    while i < fallbacks.len()
        invariant
            i <= fallbacks@.len(),
            head == (match shell_from_env(shell_env) {
                Some(t) => seq![t],
                None => Seq::<Seq<char>>::empty(),
            }),
            r@.map_values(|s: String| s@) == head + fallbacks@.take(i as int).map_values(|f: &str| f@),
        decreases fallbacks.len() - i,
    {
        let ghost before = r@;
        let f = to_owned_string(fallbacks[i]);
        assert(f@ == fallbacks@[i as int]@);
        r.push(f);
        assert(r@.map_values(|s: String| s@) =~= before.map_values(|s: String| s@).push(fallbacks@[i as int]@));
        assert(fallbacks@.take(i + 1).map_values(|f: &str| f@) =~= fallbacks@.take(i as int).map_values(
            |f: &str| f@,
        ).push(fallbacks@[i as int]@));
        assert(r@.map_values(|s: String| s@) =~= head + fallbacks@.take(i + 1).map_values(|f: &str| f@));
        i = i + 1;
    }
    assert(fallbacks@.take(fallbacks@.len() as int) =~= fallbacks@);
    r
}

/// The shell chosen from the candidates and their executable flags: the
/// first executable candidate; when none is, `$SHELL` trimmed, else
/// `/bin/sh`.
pub open spec fn chosen_shell(shell_env: Option<&str>, candidates: Seq<Seq<char>>, executable: Seq<bool>) -> Seq<
    char,
> {
    match first_set(executable, executable.len() as int) {
        Some(i) => candidates[i],
        None => match shell_from_env(shell_env) {
            Some(t) => t,
            None => "/bin/sh"@,
        },
    }
}

/// The login shell rule, for any test `is_exec` of whether a path names an
/// executable file: `$SHELL` (trimmed, when not empty) if it passes, else the
/// first fallback that passes, else `$SHELL` anyway, else `/bin/sh`.
pub open spec fn login_shell_rule(
    shell_env: Option<&str>,
    fallbacks: Seq<Seq<char>>,
    is_exec: spec_fn(Seq<char>) -> bool,
) -> Seq<char> {
    let env = shell_from_env(shell_env);
    let passing = Seq::new(fallbacks.len(), |i: int| is_exec(fallbacks[i]));
    if env is Some && is_exec(env->0) {
        env->0
    } else {
        match first_set(passing, passing.len() as int) {
            Some(i) => fallbacks[i],
            None => match env {
                Some(t) => t,
                None => "/bin/sh"@,
            },
        }
    }
}

proof fn lemma_first_set_after_unset(b: bool, rest: Seq<bool>, n: int)
    requires
        0 <= n <= rest.len(),
        !b,
    ensures
        first_set(seq![b] + rest, n + 1) == match first_set(rest, n) {
            Some(i) => Some(i + 1),
            None => None::<int>,
        },
    decreases n,
{
    let d = seq![b] + rest;
    assert(d.len() == rest.len() + 1);
    if n > 0 {
        lemma_first_set_after_unset(b, rest, n - 1);
        assert(d[n] == rest[n - 1]);
    } else {
        assert(d[0] == b);
        assert(first_set(d, 0) is None);
    }
}

/// Flagging each candidate by an executability test and choosing from the
/// flags follows the login shell rule for that test.
pub proof fn lemma_login_shell_rule(
    shell_env: Option<&str>,
    fallbacks: Seq<&str>,
    is_exec: spec_fn(Seq<char>) -> bool,
    flags: Seq<bool>,
)
    requires
        flags.len() == shell_candidates(shell_env, fallbacks).len(),
        forall|i: int|
            0 <= i < flags.len() ==> flags[i] == is_exec(#[trigger] shell_candidates(shell_env, fallbacks)[i]),
    ensures
        chosen_shell(shell_env, shell_candidates(shell_env, fallbacks), flags) == login_shell_rule(
            shell_env,
            fallbacks.map_values(|f: &str| f@),
            is_exec,
        ),
{
    let fb = fallbacks.map_values(|f: &str| f@);
    let cands = shell_candidates(shell_env, fallbacks);
    let passing = Seq::new(fb.len(), |i: int| is_exec(fb[i]));
    match shell_from_env(shell_env) {
        Some(t) => {
            assert(cands =~= seq![t] + fb);
            assert(cands[0] == t);
            assert(flags[0] == is_exec(t));
            if is_exec(t) {
                assert(flags.len() >= 1);
                assert(first_set(flags, 0) is None);
                assert(first_set(flags, 1) == Some(0int));
                lemma_first_set_stable(flags, 1, flags.len() as int);
            } else {
                assert forall|i: int| 0 <= i < passing.len() implies flags.drop_first()[i] == passing[i] by {
                    assert(cands[i + 1] == fb[i]);
                    assert(flags[i + 1] == is_exec(cands[i + 1]));
                }
                assert(flags.drop_first() =~= passing);
                assert(flags =~= seq![flags[0]] + passing);
                lemma_first_set_after_unset(flags[0], passing, passing.len() as int);
                match first_set(passing, passing.len() as int) {
                    Some(i) => {
                        lemma_first_set_in_range(passing, passing.len() as int);
                        assert(cands[i + 1] == fb[i]);
                    },
                    None => {},
                }
            }
        },
        None => {
            assert(cands =~= fb);
            assert forall|i: int| 0 <= i < passing.len() implies flags[i] == passing[i] by {
                assert(flags[i] == is_exec(cands[i]));
            }
            assert(flags =~= passing);
        },
    }
}

proof fn lemma_first_set_in_range(flags: Seq<bool>, n: int)
    requires
        0 <= n <= flags.len(),
    ensures
        first_set(flags, n) matches Some(i) ==> 0 <= i < n,
    decreases n,
{
    if n > 0 {
        lemma_first_set_in_range(flags, n - 1);
    }
}

/// The login shell: the first of the candidates (from
/// `login_shell_candidates`) that is an executable file (`executable`, one
/// flag per candidate); when none is, `$SHELL` trimmed, else `/bin/sh`.
pub fn resolve_login_shell_with_candidates(shell_env: Option<&str>, candidates: &Vec<String>, executable: &Vec<bool>) -> (r:
    String)
    requires
        executable@.len() == candidates@.len(),
    ensures
        r@ == chosen_shell(shell_env, candidates@.map_values(|s: String| s@), executable@),
{
    let mut i: usize = 0;
    while i < candidates.len()
        invariant
            i <= candidates@.len(),
            executable@.len() == candidates@.len(),
            first_set(executable@, i as int) is None,
        decreases candidates.len() - i,
    {
        if executable[i] {
            assert(first_set(executable@, i + 1) == Some(i as int));
            proof {
                lemma_first_set_stable(executable@, i + 1, executable@.len() as int);
            }
            return candidates[i].clone();
        }
        i = i + 1;
    }
    match env_shell(shell_env) {
        Some(s) => s,
        None => to_owned_string("/bin/sh"),
    }
}

proof fn lemma_first_set_stable(flags: Seq<bool>, n: int, m: int)
    requires
        0 <= n <= m <= flags.len(),
        first_set(flags, n) is Some,
    ensures
        first_set(flags, m) == first_set(flags, n),
    decreases m - n,
{
    if m > n {
        lemma_first_set_stable(flags, n, m - 1);
    }
}

} // verus!
