//! Release checks: reading the latest release tag and comparing dotted
//! version numbers.

use vstd::prelude::*;

use crate::repo::{split_chars, split_on};
use crate::text::{str_chars, trim, trimmed};
use crate::repo::chars_to_string;

verus! {

/// The value of a run of decimal digits.
pub open spec fn digits_value(d: Seq<char>) -> nat
    decreases d.len(),
{
    if d.len() == 0 {
        0
    } else {
        digits_value(d.drop_last()) * 10 + (d.last() as nat - '0' as nat) as nat
    }
}

/// Whether every character is a decimal digit.
pub open spec fn all_digits(d: Seq<char>) -> bool {
    forall|i: int| 0 <= i < d.len() ==> '0' <= #[trigger] d[i] && d[i] <= '9'
}

/// What `str::parse::<u32>` gives: an optional `+`, then one or more decimal
/// digits whose value fits in a `u32`.
pub open spec fn parse_u32(s: Seq<char>) -> Option<u32> {
    let d = if s.len() > 0 && s[0] == '+' {
        s.drop_first()
    } else {
        s
    };
    if d.len() > 0 && all_digits(d) && digits_value(d) <= u32::MAX {
        Some(digits_value(d) as u32)
    } else {
        None
    }
}

proof fn lemma_digits_value_step(d: Seq<char>, i: int)
    requires
        0 <= i < d.len(),
    ensures
        digits_value(d.subrange(0, i + 1)) == digits_value(d.subrange(0, i)) * 10 + (d[i] as nat
            - '0' as nat) as nat,
{
    assert(d.subrange(0, i + 1).drop_last() =~= d.subrange(0, i));
}

proof fn lemma_digits_value_mono(d: Seq<char>, i: int)
    requires
        0 <= i <= d.len(),
        all_digits(d),
    ensures
        digits_value(d.subrange(0, i)) <= digits_value(d),
    decreases d.len() - i,
{
    if i < d.len() {
        lemma_digits_value_step(d, i);
        lemma_digits_value_mono(d, i + 1);
    } else {
        assert(d.subrange(0, i) =~= d);
    }
}

/// Reads a whole text as a `u32`, as `str::parse::<u32>` does.
pub fn parse_u32_chars(s: &Vec<char>) -> (r: Option<u32>)
    ensures
        r == parse_u32(s@),
{
    let start: usize = if s.len() > 0 && s[0] == '+' {
        1
    } else {
        0
    };
    let ghost d = if s@.len() > 0 && s@[0] == '+' {
        s@.drop_first()
    } else {
        s@
    };
    assert(d =~= s@.subrange(start as int, s@.len() as int));
    if start >= s.len() {
        return None;
    }
    let mut value: u64 = 0;
    let mut i: usize = start;
    while i < s.len()
        invariant
            start <= i <= s.len(),
            d == s@.subrange(start as int, s@.len() as int),
            d == (if s@.len() > 0 && s@[0] == '+' {
                s@.drop_first()
            } else {
                s@
            }),
            d.len() > 0,
            all_digits(d.subrange(0, i - start)),
            value == digits_value(d.subrange(0, i - start)),
            value <= u32::MAX,
        decreases s.len() - i,
    {
        let c = s[i];
        if !('0' <= c && c <= '9') {
            assert(d[i - start] == c);
            assert(!all_digits(d));
            return None;
        }
        proof {
            lemma_digits_value_step(d, i - start);
            assert(d.subrange(0, i - start + 1).drop_last() =~= d.subrange(0, i - start));
        }
        let digit: u64 = (c as u32 - '0' as u32) as u64;
        value = value * 10 + digit;
        assert(value == digits_value(d.subrange(0, i - start + 1)));
        if value > 0xffff_ffff {
            proof {
                if all_digits(d) {
                    lemma_digits_value_mono(d, i - start + 1);
                    assert(digits_value(d) > u32::MAX);
                }
            }
            return None;
        }
        i = i + 1;
    }
    assert(d.subrange(0, i - start) =~= d);
    Some(value as u32)
}

/// The numbers of a dotted version: the pieces between dots that read as a
/// `u32`, in order (others are skipped).
pub open spec fn version_parts(pieces: Seq<Seq<char>>) -> Seq<u32>
    decreases pieces.len(),
{
    if pieces.len() == 0 {
        Seq::empty()
    } else {
        let rest = version_parts(pieces.drop_last());
        match parse_u32(pieces.last()) {
            Some(v) => rest.push(v),
            None => rest,
        }
    }
}

/// The numbers of a dotted version text.
pub open spec fn version_numbers(s: Seq<char>) -> Seq<u32> {
    version_parts(split_on(s, '.'))
}

/// The `i`-th number of a version, 0 past its end.
pub open spec fn part_at(v: Seq<u32>, i: int) -> u32 {
    if 0 <= i < v.len() {
        v[i]
    } else {
        0
    }
}

/// Whether `r` is newer than `c`, comparing from position `i` on, the shorter
/// padded with zeros.
pub open spec fn newer_from(r: Seq<u32>, c: Seq<u32>, i: int) -> bool
    decreases (if r.len() > c.len() { r.len() } else { c.len() }) - i,
{
    if i < 0 || (i >= r.len() && i >= c.len()) {
        false
    } else if part_at(r, i) > part_at(c, i) {
        true
    } else if part_at(r, i) < part_at(c, i) {
        false
    } else {
        newer_from(r, c, i + 1)
    }
}

/// Whether version text `remote` is newer than version text `current`.
pub open spec fn is_newer(remote: Seq<char>, current: Seq<char>) -> bool {
    newer_from(version_numbers(remote), version_numbers(current), 0)
}

/// No version is newer than itself, and of two versions at most one is newer
/// than the other.
pub proof fn lemma_newer_asymmetric(a: Seq<char>, b: Seq<char>)
    ensures
        !is_newer(a, a),
        !(is_newer(a, b) && is_newer(b, a)),
{
    lemma_newer_from_asym(version_numbers(a), version_numbers(b), 0);
    lemma_newer_from_asym(version_numbers(a), version_numbers(a), 0);
}

proof fn lemma_newer_from_asym(r: Seq<u32>, c: Seq<u32>, i: int)
    ensures
        !(newer_from(r, c, i) && newer_from(c, r, i)),
    decreases (if r.len() > c.len() { r.len() } else { c.len() }) - i,
{
    if i < 0 || (i >= r.len() && i >= c.len()) {
    } else if part_at(r, i) == part_at(c, i) {
        lemma_newer_from_asym(r, c, i + 1);
    }
}

/// The numbers of each piece, skipping pieces that are not numbers.
fn parse_parts(pieces: &Vec<Vec<char>>) -> (r: Vec<u32>)
    ensures
        r@ == version_parts(pieces@.map_values(|p: Vec<char>| p@)),
{
    let ghost views = pieces@.map_values(|p: Vec<char>| p@);
    let mut r: Vec<u32> = Vec::new();
    let mut i: usize = 0;
    while i < pieces.len()
        invariant
            i <= pieces.len(),
            views == pieces@.map_values(|p: Vec<char>| p@),
            r@ == version_parts(views.take(i as int)),
        decreases pieces.len() - i,
    {
        let v = parse_u32_chars(&pieces[i]);
        proof {
            assert(views.take(i + 1).drop_last() =~= views.take(i as int));
            assert(views.take(i + 1).last() == pieces@[i as int]@);
        }
        match v {
            Some(x) => r.push(x),
            None => {},
        }
        i = i + 1;
    }
    assert(views.take(pieces.len() as int) =~= views);
    r
}

/// The numbers of a dotted version text.
fn version_of(s: &str) -> (r: Vec<u32>)
    ensures
        r@ == version_numbers(s@),
{
    let v = str_chars(s);
    let pieces = split_chars(&v, '.');
    assert(pieces@.map_values(|p: Vec<char>| p@) =~= split_on(v@, '.'));
    parse_parts(&pieces)
}

/// Whether `remote` is a newer version than `current`: their dotted numbers
/// compared left to right, a missing number counting as 0 and pieces that are
/// not numbers skipped (so "0.2.0" is newer than "0.1.5").
pub fn version_newer(remote: &str, current: &str) -> (r: bool)
    ensures
        r == is_newer(remote@, current@),
{
    let rv = version_of(remote);
    let cv = version_of(current);
    let n = if rv.len() > cv.len() {
        rv.len()
    } else {
        cv.len()
    };
    let mut i: usize = 0;
    while i < n
        invariant
            n == (if rv@.len() > cv@.len() { rv@.len() } else { cv@.len() }),
            rv@ == version_numbers(remote@),
            cv@ == version_numbers(current@),
            i <= n,
            newer_from(rv@, cv@, 0) == newer_from(rv@, cv@, i as int),
        decreases n - i,
    {
        let a: u32 = if i < rv.len() {
            rv[i]
        } else {
            0
        };
        let b: u32 = if i < cv.len() {
            cv[i]
        } else {
            0
        };
        assert(a == part_at(rv@, i as int));
        assert(b == part_at(cv@, i as int));
        if a > b {
            return true;
        }
        if a < b {
            return false;
        }
        i = i + 1;
    }
    false
}

/// `s` without any number of leading `v` characters.
pub open spec fn strip_leading_v(s: Seq<char>) -> Seq<char>
    decreases s.len(),
{
    if s.len() > 0 && s[0] == 'v' {
        strip_leading_v(s.drop_first())
    } else {
        s
    }
}

/// The release tag with surrounding whitespace and leading `v`s removed.
pub open spec fn tag_version(output: Seq<char>) -> Seq<char> {
    strip_leading_v(trimmed(output))
}

/// Decides whether an update is available: `latest_tag` is what the release
/// query printed (none when it failed) and `current` this build's version.
/// Returns the release's version when it is newer.
pub fn check_for_update(latest_tag: Option<String>, current: &str) -> (r: Option<String>)
    ensures
        match latest_tag {
            None => r is None,
            Some(t) => if is_newer(tag_version(t@), current@) {
                r matches Some(v) && v@ == tag_version(t@)
            } else {
                r is None
            },
        },
{
    match latest_tag {
        None => None,
        Some(t) => {
            let v = str_chars(trim(t.as_str()));
            let mut k: usize = 0;
            assert(v@.subrange(0, v@.len() as int) =~= v@);
            while k < v.len() && v[k] == 'v'
                invariant
                    k <= v.len(),
                    strip_leading_v(v@) == strip_leading_v(v@.subrange(k as int, v@.len() as int)),
                decreases v.len() - k,
            {
                let ghost rest = v@.subrange(k as int, v@.len() as int);
                assert(rest.drop_first() =~= v@.subrange(k + 1, v@.len() as int));
                k = k + 1;
            }
            let mut w: Vec<char> = Vec::new();
            let mut i = k;
            while i < v.len()
                invariant
                    k <= i <= v.len(),
                    w@ == v@.subrange(k as int, i as int),
                decreases v.len() - i,
            {
                w.push(v[i]);
                assert(w@ =~= v@.subrange(k as int, i + 1));
                i = i + 1;
            }
            assert(w@ == strip_leading_v(v@));
            let tag = chars_to_string(&w);
            if version_newer(tag.as_str(), current) {
                Some(tag)
            } else {
                None
            }
        },
    }
}

/// The release asset built for an operating system and architecture (as
/// Rust names them), if there is one.
pub open spec fn asset_for(os: Seq<char>, arch: Seq<char>) -> Option<Seq<char>> {
    if os == "macos"@ && arch == "aarch64"@ {
        Some("beehive-tui-darwin-arm64"@)
    } else if os == "linux"@ && arch == "x86_64"@ {
        Some("beehive-tui-linux-x64"@)
    } else {
        None
    }
}

/// The release asset built for an operating system and architecture (as
/// Rust names them), if there is one.
pub fn asset_name(os: &str, arch: &str) -> (r: Option<&'static str>)
    ensures
        match r {
            Some(a) => asset_for(os@, arch@) == Some(a@),
            None => asset_for(os@, arch@) is None,
        },
{
    proof {
        reveal_strlit("macos");
        reveal_strlit("aarch64");
        reveal_strlit("linux");
        reveal_strlit("x86_64");
    }
    if crate::text::str_eq(os, "macos") && crate::text::str_eq(arch, "aarch64") {
        Some("beehive-tui-darwin-arm64")
    } else if crate::text::str_eq(os, "linux") && crate::text::str_eq(arch, "x86_64") {
        Some("beehive-tui-linux-x64")
    } else {
        None
    }
}

/// Where the asset of release `version` is downloaded from.
pub fn release_asset_url(version: &str, asset: &str) -> (r: String)
    ensures
        r@ == "https://github.com/storozhenko98/beehive/releases/download/v"@ + version@ + "/"@ + asset@,
{
    let mut r = crate::text::to_owned_string("https://github.com/storozhenko98/beehive/releases/download/v");
    r.append(version);
    r.append("/");
    r.append(asset);
    r
}

/// The message of a self-update that could not be done: the reason, then
/// how to update by hand.
pub fn manual_update_message(reason: &str) -> (r: String)
    ensures
        r@ == reason@ + " Update manually:\n  curl -fsSL https://raw.githubusercontent.com/storozhenko98/beehive/main/install.sh | bash"@,
{
    let mut r = crate::text::to_owned_string(reason);
    r.append(" Update manually:\n  curl -fsSL https://raw.githubusercontent.com/storozhenko98/beehive/main/install.sh | bash");
    r
}

} // verus!
