//! Keyboard protocol state negotiated by the application inside a terminal
//! pane: the kitty keyboard protocol's push (`CSI > flags u`), pop
//! (`CSI < u`, `CSI < N u`) and set (`CSI = flags ; mode u`) sequences are
//! detected in its output, and `CSI ? u` queries are answered.

use vstd::prelude::*;

use std::sync::atomic::AtomicU8;
use std::sync::Arc;

use crate::atomics::{load_flags, new_flags, store_flags};
use crate::keys::ascii_lower;
use crate::text::str_chars;

verus! {

pub open spec fn is_digit(b: u8) -> bool {
    48 <= b && b <= 57
}

/// The first position at or after `j` that does not hold a decimal digit.
pub open spec fn digits_end(d: Seq<u8>, j: int) -> int
    decreases d.len() - j,
{
    if j < 0 || j >= d.len() {
        if j < 0 {
            0
        } else {
            j
        }
    } else if is_digit(d[j]) {
        digits_end(d, j + 1)
    } else {
        j
    }
}

/// One saturating step of reading a decimal number into a byte.
pub open spec fn sat_digit(num: nat, digit: u8) -> nat {
    let m = num * 10;
    let m1: nat = if m > 255 {
        255
    } else {
        m
    };
    let m2: nat = m1 + (digit - 48) as nat;
    if m2 > 255 {
        255
    } else {
        m2
    }
}

/// The saturating byte value of the digits in `d[j..k]`, read from `num`.
pub open spec fn sat_number(d: Seq<u8>, j: int, k: int, num: nat) -> nat
    decreases k - j,
{
    if j >= k || j < 0 || k > d.len() {
        num
    } else {
        sat_number(d, j + 1, k, sat_digit(num, d[j]))
    }
}

pub open spec fn at_least_one(n: nat) -> nat {
    if n < 1 {
        1
    } else {
        n
    }
}

/// Scans the output from position `i`, where `cur` is the flag value last set
/// so far (if any), and returns the flag value last set by the whole output.
pub open spec fn kb_scan(d: Seq<u8>, i: int, cur: Option<u8>) -> Option<u8>
    decreases d.len() - i,
{
    if i < 0 || i + 3 >= d.len() {
        cur
    } else if d[i] != 0x1b || d[i + 1] != 0x5b {
        kb_scan(d, i + 1, cur)
    } else {
        let k = i + 2;
        proof {
            lemma_digits_end(d, k + 1);
        }
        if d[k] == 0x3e {
            // push: ESC [ > N u
            let j = digits_end(d, k + 1);
            if j < d.len() && d[j] == 0x75 && j > k + 1 {
                kb_scan(d, j + 1, Some(at_least_one(sat_number(d, k + 1, j, 0)) as u8))
            } else {
                kb_scan(d, j, cur)
            }
        } else if d[k] == 0x3c {
            // pop: ESC [ < u  or  ESC [ < N u
            if d[k + 1] == 0x75 {
                kb_scan(d, k + 2, Some(0u8))
            } else {
                let j = digits_end(d, k + 1);
                if j < d.len() && d[j] == 0x75 {
                    kb_scan(d, j + 1, Some(0u8))
                } else {
                    kb_scan(d, j, cur)
                }
            }
        } else if d[k] == 0x3d {
            // set: ESC [ = flags ; mode u
            let j = digits_end(d, k + 1);
            proof {
                if j < d.len() {
                    lemma_digits_end(d, j + 1);
                }
            }
            let j2 = if j < d.len() && d[j] == 0x3b {
                digits_end(d, j + 1)
            } else {
                j
            };
            if j2 < d.len() && d[j2] == 0x75 {
                kb_scan(d, j2 + 1, Some(at_least_one(sat_number(d, k + 1, j, 0)) as u8))
            } else {
                kb_scan(d, j2, cur)
            }
        } else {
            kb_scan(d, k, cur)
        }
    }
}

pub proof fn lemma_digits_end(d: Seq<u8>, j: int)
    requires
        0 <= j <= d.len(),
    ensures
        j <= digits_end(d, j) <= d.len(),
        forall|t: int| j <= t < digits_end(d, j) ==> is_digit(d[t]),
        digits_end(d, j) < d.len() ==> !is_digit(d[digits_end(d, j)]),
    decreases d.len() - j,
{
    if j < d.len() && is_digit(d[j]) {
        lemma_digits_end(d, j + 1);
    }
}

/// The decimal number written by the digits `ds`, read from `acc` on.
pub open spec fn decimal_from(ds: Seq<u8>, acc: nat) -> nat
    decreases ds.len(),
{
    if ds.len() == 0 {
        acc
    } else {
        decimal_from(ds.drop_first(), acc * 10 + (ds[0] - 48) as nat)
    }
}

/// The decimal number written by the digits `ds`.
pub open spec fn decimal_value(ds: Seq<u8>) -> nat {
    decimal_from(ds, 0)
}

pub open spec fn min_255(n: nat) -> nat {
    if n > 255 {
        255
    } else {
        n
    }
}

/// The flags that a push of the number written by `ds` sets: the number,
/// held to 1 ..= 255.
pub open spec fn pushed_flags(ds: Seq<u8>) -> u8 {
    at_least_one(min_255(decimal_value(ds))) as u8
}

/// The push sequence `ESC [ > ds u`.
pub open spec fn push_sequence(ds: Seq<u8>) -> Seq<u8> {
    seq![0x1bu8, 0x5bu8, 0x3eu8] + ds + seq![0x75u8]
}

/// The pop sequence `ESC [ < u`.
pub open spec fn pop_sequence() -> Seq<u8> {
    seq![0x1bu8, 0x5bu8, 0x3cu8, 0x75u8]
}

/// `ESC [` followed by `>`, `<` or `=` starts at position `i`.
pub open spec fn negotiation_at(d: Seq<u8>, i: int) -> bool {
    &&& d[i] == 0x1b
    &&& d[i + 1] == 0x5b
    &&& (d[i + 2] == 0x3e || d[i + 2] == 0x3c || d[i + 2] == 0x3d)
}

proof fn lemma_sat_digit(a: nat, digit: u8)
    requires
        is_digit(digit),
    ensures
        sat_digit(min_255(a), digit) == min_255(a * 10 + (digit - 48) as nat),
{
}

/// Reading digits with saturation gives their decimal value, held to 255.
proof fn lemma_sat_number_value(d: Seq<u8>, j: int, k: int, acc: nat)
    requires
        0 <= j <= k <= d.len(),
        forall|t: int| j <= t < k ==> is_digit(#[trigger] d[t]),
    ensures
        sat_number(d, j, k, min_255(acc)) == min_255(decimal_from(d.subrange(j, k), acc)),
    decreases k - j,
{
    if j < k {
        lemma_sat_digit(acc, d[j]);
        lemma_sat_number_value(d, j + 1, k, acc * 10 + (d[j] - 48) as nat);
        assert(d.subrange(j, k).drop_first() =~= d.subrange(j + 1, k));
    } else {
        assert(d.subrange(j, k) =~= Seq::<u8>::empty());
    }
}

/// With no negotiation sequence in the output, the scan keeps what it had.
proof fn lemma_kb_scan_keeps(d: Seq<u8>, i: int, cur: Option<u8>)
    requires
        0 <= i,
        forall|t: int| 0 <= t && t + 2 < d.len() ==> !(#[trigger] negotiation_at(d, t)),
    ensures
        kb_scan(d, i, cur) == cur,
    decreases d.len() - i,
{
    if i + 3 < d.len() {
        if d[i] != 0x1b || d[i + 1] != 0x5b {
            lemma_kb_scan_keeps(d, i + 1, cur);
        } else {
            assert(!negotiation_at(d, i));
            lemma_kb_scan_keeps(d, i + 2, cur);
        }
    }
}

/// Output in which `ESC [` is never followed by `>`, `<` or `=` sets no
/// flags: the flags stay as they were.
pub proof fn lemma_no_negotiation_no_update(d: Seq<u8>)
    requires
        forall|t: int| 0 <= t && t + 2 < d.len() ==> !(#[trigger] negotiation_at(d, t)),
    ensures
        kb_scan(d, 0, None) == None::<u8>,
{
    lemma_kb_scan_keeps(d, 0, None);
}

/// A push sequence that ends the output at position `p` sets its flags,
/// whatever was set before.
proof fn lemma_push_at(d: Seq<u8>, p: int, ds: Seq<u8>, cur: Option<u8>)
    requires
        0 <= p <= d.len(),
        ds.len() > 0,
        forall|t: int| 0 <= t < ds.len() ==> is_digit(#[trigger] ds[t]),
        d.subrange(p, d.len() as int) == push_sequence(ds),
    ensures
        kb_scan(d, p, cur) == Some(pushed_flags(ds)),
{
    let n: int = ds.len() as int;
    let k: int = p + 2;
    assert(push_sequence(ds).len() == n + 4);
    assert(d.subrange(p, d.len() as int).len() == d.len() - p);
    assert(d.len() == p + n + 4);
    assert(d[p] == push_sequence(ds)[0]);
    assert(d[p + 1] == push_sequence(ds)[1]);
    assert(d[k] == push_sequence(ds)[2]);
    assert forall|t: int| k + 1 <= t < k + 1 + n implies is_digit(#[trigger] d[t]) by {
        assert(d[t] == push_sequence(ds)[t - p]);
        assert(push_sequence(ds)[t - p] == ds[t - p - 3]);
    }
    assert(d[k + 1 + n] == push_sequence(ds)[n + 3]);
    lemma_digits_end(d, k + 1);
    let j: int = digits_end(d, k + 1);
    if j < k + 1 + n {
        assert(is_digit(d[j]));
    }
    if j > k + 1 + n {
        assert(is_digit(d[k + 1 + n]));
    }
    assert(j == k + 1 + n);
    lemma_sat_number_value(d, k + 1, j, 0);
    assert forall|t: int| 0 <= t < n implies d.subrange(k + 1, j)[t] == ds[t] by {
        assert(d[k + 1 + t] == push_sequence(ds)[t + 3]);
    }
    assert(d.subrange(k + 1, j) =~= ds);
    assert(min_255(0) == 0);
    assert(kb_scan(d, j + 1, Some(pushed_flags(ds))) == Some(pushed_flags(ds)));
}

/// The scan never passes over an `ESC` byte it does not start at: from any
/// position up to an `ESC` at `p` (with three bytes after it), it reaches `p`.
proof fn lemma_kb_scan_reaches(d: Seq<u8>, i: int, p: int, cur: Option<u8>)
    requires
        0 <= i <= p,
        p + 3 < d.len(),
        d[p] == 0x1b,
    ensures
        exists|c: Option<u8>| kb_scan(d, i, cur) == #[trigger] kb_scan(d, p, c),
    decreases p - i,
{
    if i == p {
        assert(kb_scan(d, i, cur) == kb_scan(d, p, cur));
    } else if d[i] != 0x1b || d[i + 1] != 0x5b {
        lemma_kb_scan_reaches(d, i + 1, p, cur);
    } else {
        let k: int = i + 2;
        assert(p != i + 1);
        lemma_digits_end(d, k + 1);
        if d[k] == 0x3e {
            let j: int = digits_end(d, k + 1);
            assert(p != k);
            if p < j {
                assert(is_digit(d[p]));
            }
            if j < d.len() && d[j] == 0x75 && j > k + 1 {
                assert(p != j);
                lemma_kb_scan_reaches(d, j + 1, p, Some(at_least_one(sat_number(d, k + 1, j, 0)) as u8));
            } else {
                lemma_kb_scan_reaches(d, j, p, cur);
            }
        } else if d[k] == 0x3c {
            assert(p != k);
            if d[k + 1] == 0x75 {
                assert(p != k + 1);
                lemma_kb_scan_reaches(d, k + 2, p, Some(0u8));
            } else {
                let j: int = digits_end(d, k + 1);
                if p < j {
                    assert(is_digit(d[p]));
                }
                if j < d.len() && d[j] == 0x75 {
                    assert(p != j);
                    lemma_kb_scan_reaches(d, j + 1, p, Some(0u8));
                } else {
                    lemma_kb_scan_reaches(d, j, p, cur);
                }
            }
        } else if d[k] == 0x3d {
            assert(p != k);
            let j: int = digits_end(d, k + 1);
            if p < j {
                assert(is_digit(d[p]));
            }
            if j < d.len() {
                lemma_digits_end(d, j + 1);
            }
            let j2: int = if j < d.len() && d[j] == 0x3b {
                digits_end(d, j + 1)
            } else {
                j
            };
            if j < d.len() && d[j] == 0x3b {
                assert(p != j);
                if p < j2 {
                    assert(is_digit(d[p]));
                }
            }
            if j2 < d.len() && d[j2] == 0x75 {
                assert(p != j2);
                lemma_kb_scan_reaches(d, j2 + 1, p, Some(at_least_one(sat_number(d, k + 1, j, 0)) as u8));
            } else {
                lemma_kb_scan_reaches(d, j2, p, cur);
            }
        } else {
            lemma_kb_scan_reaches(d, k, p, cur);
        }
    }
}

/// A push of a decimal number sets the flags to that number, held to
/// 1 ..= 255.
pub proof fn lemma_push_sets_flags(ds: Seq<u8>)
    requires
        ds.len() > 0,
        forall|t: int| 0 <= t < ds.len() ==> is_digit(#[trigger] ds[t]),
    ensures
        kb_scan(push_sequence(ds), 0, None) == Some(pushed_flags(ds)),
{
    let d = push_sequence(ds);
    assert(d.subrange(0, d.len() as int) =~= d);
    lemma_push_at(d, 0, ds, None);
}

/// The last sequence wins: output that ends with a push sets the pushed
/// flags, whatever came before it.
pub proof fn lemma_last_push_wins(before: Seq<u8>, ds: Seq<u8>)
    requires
        ds.len() > 0,
        forall|t: int| 0 <= t < ds.len() ==> is_digit(#[trigger] ds[t]),
    ensures
        kb_scan(before + push_sequence(ds), 0, None) == Some(pushed_flags(ds)),
{
    let d = before + push_sequence(ds);
    let p: int = before.len() as int;
    assert(d.subrange(p, d.len() as int) =~= push_sequence(ds));
    assert(d[p] == push_sequence(ds)[0]);
    lemma_kb_scan_reaches(d, 0, p, None);
    let c = choose|c: Option<u8>| kb_scan(d, 0, None) == #[trigger] kb_scan(d, p, c);
    lemma_push_at(d, p, ds, c);
}

/// The last sequence wins: output that ends with a pop leaves legacy mode
/// (flags 0), whatever came before it.
pub proof fn lemma_last_pop_wins(before: Seq<u8>)
    ensures
        kb_scan(before + pop_sequence(), 0, None) == Some(0u8),
{
    let d = before + pop_sequence();
    let p: int = before.len() as int;
    assert(d[p] == pop_sequence()[0]);
    assert(d[p + 1] == pop_sequence()[1]);
    assert(d[p + 2] == pop_sequence()[2]);
    assert(d[p + 3] == pop_sequence()[3]);
    lemma_kb_scan_reaches(d, 0, p, None);
    let c = choose|c: Option<u8>| kb_scan(d, 0, None) == #[trigger] kb_scan(d, p, c);
    assert(kb_scan(d, p + 4, Some(0u8)) == Some(0u8));
}

/// Reads decimal digits from `j`, saturating at 255; returns the value and the
/// first non-digit position.
fn read_sat_number(d: &[u8], j: usize) -> (r: (u8, usize))
    requires
        j <= d.len(),
    ensures
        j <= r.1 <= d.len(),
        r.1 == digits_end(d@, j as int),
        r.0 as nat == sat_number(d@, j as int, r.1 as int, 0),
{
    let mut num: u8 = 0;
    let mut i = j;
    proof {
        lemma_digits_end(d@, j as int);
    }
    while i < d.len() && 48 <= d[i] && d[i] <= 57
        invariant
            j <= i <= d.len(),
            i <= digits_end(d@, j as int),
            digits_end(d@, i as int) == digits_end(d@, j as int),
            sat_number(d@, j as int, digits_end(d@, j as int), 0) == sat_number(
                d@,
                i as int,
                digits_end(d@, j as int),
                num as nat,
            ),
        decreases d.len() - i,
    {
        proof {
            lemma_digits_end(d@, i as int + 1);
        }
        let m: u8 = if num > 25 {
            255
        } else {
            num * 10
        };
        proof {
            if num > 25 {
                assert(num * 10 > 255) by (nonlinear_arith)
                    requires
                        num > 25,
                ;
            }
        }
        let digit: u8 = d[i] - 48;
        let ghost old_num = num;
        num = if m > 255 - digit {
            255
        } else {
            m + digit
        };
        assert(num as nat == sat_digit(old_num as nat, d@[i as int]));
        i = i + 1;
    }
    (num, i)
}

pub(crate) fn skip_digits(d: &[u8], j: usize) -> (r: usize)
    requires
        j <= d.len(),
    ensures
        j <= r <= d.len(),
        r == digits_end(d@, j as int),
{
    let mut i = j;
    proof {
        lemma_digits_end(d@, j as int);
    }
    while i < d.len() && 48 <= d[i] && d[i] <= 57
        invariant
            j <= i <= d.len(),
            i <= digits_end(d@, j as int),
            digits_end(d@, i as int) == digits_end(d@, j as int),
        decreases d.len() - i,
    {
        proof {
            lemma_digits_end(d@, i as int + 1);
        }
        i = i + 1;
    }
    i
}

/// The keyboard flags that a stretch of terminal output leaves set: the value
/// of the last push, pop or set sequence in it, or `None` when it holds none.
/// A push or set of flags 0 counts as 1; a pop resets to 0.
pub fn keyboard_protocol_update(data: &[u8]) -> (r: Option<u8>)
    ensures
        r == kb_scan(data@, 0, None),
{
    let len = data.len();
    let mut i: usize = 0;
    let mut cur: Option<u8> = None;
    while i < len && len - i > 3
        invariant
            len == data.len(),
            i <= len,
            kb_scan(data@, 0, None) == kb_scan(data@, i as int, cur),
        decreases len - i,
    {
        if data[i] != 0x1b || data[i + 1] != 0x5b {
            i = i + 1;
            continue;
        }
        let k = i + 2;
        if data[k] == 0x3e {
            let (num, j) = read_sat_number(data, k + 1);
            if j < len && data[j] == 0x75 && j > k + 1 {
                cur = Some(if num < 1 {
                    1
                } else {
                    num
                });
                i = j + 1;
            } else {
                i = j;
            }
        } else if data[k] == 0x3c {
            if data[k + 1] == 0x75 {
                cur = Some(0);
                i = k + 2;
            } else {
                let j = skip_digits(data, k + 1);
                if j < len && data[j] == 0x75 {
                    cur = Some(0);
                    i = j + 1;
                } else {
                    i = j;
                }
            }
        } else if data[k] == 0x3d {
            let (num, j) = read_sat_number(data, k + 1);
            let j2 = if j < len && data[j] == 0x3b {
                skip_digits(data, j + 1)
            } else {
                j
            };
            if j2 < len && data[j2] == 0x75 {
                cur = Some(if num < 1 {
                    1
                } else {
                    num
                });
                i = j2 + 1;
            } else {
                i = j2;
            }
        } else {
            i = k;
        }
    }
    cur
}

/// Detects keyboard protocol negotiation in raw terminal output and records
/// the flags it leaves set in `flags`.
pub fn detect_keyboard_protocol(data: &[u8], flags: &AtomicU8) {
    if let Some(v) = keyboard_protocol_update(data) {
        store_flags(flags, v);
    }
}

/// The answer to a `CSI ? u` query: `CSI ? 3 u` (disambiguate and report event
/// types) when the outer terminal is enhanced, else `CSI ? 1 u`.
pub fn query_response(enhanced_outer: bool) -> (r: Vec<u8>)
    ensures
        r@ == seq![0x1bu8, 0x5bu8, 0x3fu8, if enhanced_outer {
            0x33u8
        } else {
            0x31u8
        }, 0x75u8],
{
    let mut v: Vec<u8> = Vec::new();
    v.push(0x1b);
    v.push(0x5b);
    v.push(0x3f);
    v.push(if enhanced_outer {
        0x33
    } else {
        0x31
    });
    v.push(0x75);
    assert(v@ =~= seq![0x1bu8, 0x5bu8, 0x3fu8, if enhanced_outer {
        0x33u8
    } else {
        0x31u8
    }, 0x75u8]);
    v
}

/// The keyboard protocol state of one terminal pane: the flags set by the
/// inner application (shared with the thread that reads its output), and an
/// override that forces enhanced keys.
pub struct KeyboardProtocol {
    flags: Arc<AtomicU8>,
    force_enhanced: bool,
}

impl KeyboardProtocol {
    /// Whether enhanced keys are forced.
    pub closed spec fn forced(self) -> bool {
        self.force_enhanced
    }

    /// A protocol state in legacy mode, with enhanced keys forced or not.
    pub fn new(force_enhanced: bool) -> (r: Self)
        ensures
            r.forced() == force_enhanced,
    {
        KeyboardProtocol { flags: Arc::new(new_flags()), force_enhanced }
    }

    /// The flags this state reads, shared with the thread that reads the
    /// application's output.
    pub closed spec fn shared_flags(self) -> Arc<AtomicU8> {
        self.flags
    }

    /// The shared flags, for the thread that reads the application's output:
    /// a handle to the very flags this state reads.
    pub fn flags_ref(&self) -> (r: Arc<AtomicU8>)
        ensures
            r == self.shared_flags(),
    {
        self.flags.clone()
    }

    /// Whether keys are sent in enhanced mode: forced, or flags above zero
    /// (`enhanced` of the flags as read now; another thread sets them).
    pub fn is_enhanced(&self) -> (r: bool)
        ensures
            self.forced() ==> r,
    {
        enhanced(self.force_enhanced, load_flags(&self.flags))
    }

    /// The current flags value (0 is legacy mode).
    pub fn flags_value(&self) -> u8 {
        load_flags(&self.flags)
    }

    /// Sets the override that forces enhanced keys.
    pub fn set_force_enhanced(&mut self, force: bool)
        ensures
            final(self).shared_flags() == old(self).shared_flags(),
            final(self).forced() == force,
    {
        self.force_enhanced = force;
    }
}


/// Whether keys go out in enhanced mode, from the override (`forced`) and
/// the protocol flags the inner application left set.
pub fn enhanced(forced: bool, flags: u8) -> (r: bool)
    ensures
        r == (forced || flags > 0),
{
    forced || flags > 0
}

/// Two texts equal up to ASCII letter case.
pub open spec fn eq_ignore_ascii_case(a: Seq<char>, b: Seq<char>) -> bool {
    a.len() == b.len() && forall|i: int| 0 <= i < a.len() ==> ascii_lower(#[trigger] a[i]) == ascii_lower(b[i])
}

/// Whether two characters are equal up to ASCII letter case.
fn same_ignoring_ascii_case(a: char, b: char) -> (r: bool)
    ensures
        r == (ascii_lower(a) == ascii_lower(b)),
{
    let la: u32 = if 'A' <= a && a <= 'Z' {
        (a as u32) + 32
    } else {
        a as u32
    };
    let lb: u32 = if 'A' <= b && b <= 'Z' {
        (b as u32) + 32
    } else {
        b as u32
    };
    assert(ascii_lower(a) as u32 == la);
    assert(ascii_lower(b) as u32 == lb);
    la == lb
}

/// Whether an environment switch is on: its value is `1`, or `true` in any
/// letter case (an unset variable is off). `BEEHIVE_FORCE_ENHANCED_KEYS`
/// forces enhanced keys this way.
pub fn env_switch_on(value: Option<&str>) -> (r: bool)
    ensures
        r == match value {
            Some(v) => v@ == "1"@ || eq_ignore_ascii_case(v@, "true"@),
            None => false,
        },
{
    proof {
        reveal_strlit("1");
        reveal_strlit("true");
    }
    match value {
        None => false,
        Some(v) => {
            let c = str_chars(v);
            if c.len() == 1 && c[0] == '1' {
                assert(v@ =~= "1"@);
                return true;
            }
            let t = str_chars("true");
            if c.len() != t.len() {
                return false;
            }
            let mut i: usize = 0;
            while i < c.len()
                invariant
                    value == Some(v),
                    c@ == v@,
                    t@ == "true"@,
                    c.len() == t.len(),
                    i <= c.len(),
                    forall|k: int| 0 <= k < i ==> ascii_lower(c@[k]) == ascii_lower(t@[k]),
                    !(v@ == "1"@),
                decreases c.len() - i,
            {
                if !same_ignoring_ascii_case(c[i], t[i]) {
                    assert(!eq_ignore_ascii_case(v@, "true"@)) by {
                        assert(ascii_lower(v@[i as int]) != ascii_lower("true"@[i as int]));
                    }
                    return false;
                }
                i = i + 1;
            }
            true
        },
    }
}

} // verus!
