//! Detection of OSC 52 clipboard requests (`ESC ] 52 ; selection ; base64 BEL`
//! or `... ESC \`) in terminal output, and base64 decoding of their payload.

use vstd::prelude::*;

use crate::text::push_all;
use crate::terminal::slice_range;

verus! {

/// The six-bit value of a base64 character.
pub open spec fn b64_value(b: u8) -> Option<nat> {
    if 0x41 <= b && b <= 0x5a {
        Some((b - 0x41) as nat)
    } else if 0x61 <= b && b <= 0x7a {
        Some((b - 0x61 + 26) as nat)
    } else if 0x30 <= b && b <= 0x39 {
        Some((b - 0x30 + 52) as nat)
    } else if b == 0x2b {
        Some(62)
    } else if b == 0x2f {
        Some(63)
    } else {
        None
    }
}

/// Padding and whitespace, which decoding skips.
pub open spec fn b64_skipped(b: u8) -> bool {
    b == 0x3d || b == 0x0a || b == 0x0d || b == 0x20
}

/// The six-bit values of the input's characters, skipping padding and
/// whitespace; `None` when it holds any other character.
pub open spec fn b64_values(input: Seq<u8>) -> Option<Seq<nat>>
    decreases input.len(),
{
    if input.len() == 0 {
        Some(Seq::empty())
    } else {
        match b64_values(input.drop_last()) {
            None => None,
            Some(vs) => if b64_skipped(input.last()) {
                Some(vs)
            } else {
                match b64_value(input.last()) {
                    Some(v) => Some(vs.push(v)),
                    None => None,
                }
            },
        }
    }
}

pub open spec fn b64_byte0(v0: nat, v1: nat) -> u8 {
    (v0 * 4 + v1 / 16) as u8
}

pub open spec fn b64_byte1(v1: nat, v2: nat) -> u8 {
    ((v1 % 16) * 16 + v2 / 4) as u8
}

pub open spec fn b64_byte2(v2: nat, v3: nat) -> u8 {
    ((v2 % 4) * 64 + v3) as u8
}

/// The bytes that six-bit values stand for: every four values give three
/// bytes; two or three trailing values give one or two bytes.
pub open spec fn b64_bytes(vs: Seq<nat>) -> Seq<u8>
    decreases vs.len(),
{
    if vs.len() < 2 {
        Seq::empty()
    } else if vs.len() == 2 {
        seq![b64_byte0(vs[0], vs[1])]
    } else if vs.len() == 3 {
        seq![b64_byte0(vs[0], vs[1]), b64_byte1(vs[1], vs[2])]
    } else {
        seq![b64_byte0(vs[0], vs[1]), b64_byte1(vs[1], vs[2]), b64_byte2(vs[2], vs[3])]
            + b64_bytes(vs.subrange(4, vs.len() as int))
    }
}

/// Base64 decoding that skips padding and whitespace.
pub open spec fn b64_decode_spec(input: Seq<u8>) -> Option<Seq<u8>> {
    match b64_values(input) {
        Some(vs) => Some(b64_bytes(vs)),
        None => None,
    }
}

proof fn lemma_b64_none_extends(input: Seq<u8>, i: int, j: int)
    requires
        0 <= i <= j <= input.len(),
        b64_values(input.take(i)) is None,
    ensures
        b64_values(input.take(j)) is None,
    decreases j - i,
{
    if j > i {
        lemma_b64_none_extends(input, i, j - 1);
        assert(input.take(j).drop_last() =~= input.take(j - 1));
    }
}

fn b64_char_value(b: u8) -> (r: Option<u8>)
    ensures
        match b64_value(b) {
            Some(v) => r == Some(v as u8) && v < 64,
            None => r is None,
        },
{
    if 0x41 <= b && b <= 0x5a {
        Some(b - 0x41)
    } else if 0x61 <= b && b <= 0x7a {
        Some(b - 0x61 + 26)
    } else if 0x30 <= b && b <= 0x39 {
        Some(b - 0x30 + 52)
    } else if b == 0x2b {
        Some(62)
    } else if b == 0x2f {
        Some(63)
    } else {
        None
    }
}

pub open spec fn as_nats(v: Seq<u8>) -> Seq<nat> {
    v.map_values(|x: u8| x as nat)
}

/// Decodes base64, skipping `=`, newlines and spaces; `None` on any other
/// character outside the base64 alphabet.
pub fn base64_decode(input: &[u8]) -> (r: Option<Vec<u8>>)
    ensures
        match b64_decode_spec(input@) {
            Some(bytes) => r matches Some(v) && v@ == bytes,
            None => r is None,
        },
{
    let mut vals: Vec<u8> = Vec::new();
    let mut i: usize = 0;
    assert(input@.take(0) =~= Seq::<u8>::empty());
    while i < input.len()
        invariant
            i <= input.len(),
            b64_values(input@.take(i as int)) == Some(as_nats(vals@)),
            forall|k: int| 0 <= k < vals@.len() ==> vals@[k] < 64,
        decreases input.len() - i,
    {
        let b = input[i];
        assert(input@.take(i + 1).drop_last() =~= input@.take(i as int));
        if b == 0x3d || b == 0x0a || b == 0x0d || b == 0x20 {
            i = i + 1;
            continue;
        }
        match b64_char_value(b) {
            Some(v) => {
                let ghost before = vals@;
                vals.push(v);
                assert(as_nats(vals@) =~= as_nats(before).push(v as nat));
            },
            None => {
                proof {
                    lemma_b64_none_extends(input@, i + 1, input@.len() as int);
                    assert(input@.take(input@.len() as int) =~= input@);
                }
                return None;
            },
        }
        i = i + 1;
    }
    assert(input@.take(input@.len() as int) =~= input@);
    let mut out: Vec<u8> = Vec::new();
    let n = vals.len();
    let mut g: usize = 0;
    assert(as_nats(vals@).subrange(0, n as int) =~= as_nats(vals@));
    assert(out@ + b64_bytes(as_nats(vals@)) =~= b64_bytes(as_nats(vals@)));
    while n - g >= 4
        invariant
            n == vals.len(),
            g <= n,
            g % 4 == 0,
            forall|k: int| 0 <= k < vals@.len() ==> vals@[k] < 64,
            b64_bytes(as_nats(vals@)) == out@ + b64_bytes(as_nats(vals@).subrange(g as int, n as int)),
        decreases n - g,
    {
        let v0 = vals[g];
        let v1 = vals[g + 1];
        let v2 = vals[g + 2];
        let v3 = vals[g + 3];
        let ghost rest = as_nats(vals@).subrange(g as int, n as int);
        let ghost old_out = out@;
        assert(rest.subrange(4, rest.len() as int) =~= as_nats(vals@).subrange(g + 4, n as int));
        assert(rest[0] == v0 as nat && rest[1] == v1 as nat && rest[2] == v2 as nat && rest[3] == v3 as nat);
        out.push(v0 * 4 + v1 / 16);
        out.push((v1 % 16) * 16 + v2 / 4);
        out.push((v2 % 4) * 64 + v3);
        assert(out@ =~= old_out + seq![b64_byte0(rest[0], rest[1]), b64_byte1(rest[1], rest[2]), b64_byte2(rest[2], rest[3])]);
        assert(b64_bytes(rest) == seq![b64_byte0(rest[0], rest[1]), b64_byte1(rest[1], rest[2]), b64_byte2(rest[2], rest[3])] + b64_bytes(rest.subrange(4, rest.len() as int)));
        assert(old_out + b64_bytes(rest) =~= out@ + b64_bytes(as_nats(vals@).subrange(g + 4, n as int)));
        g = g + 4;
    }
    let ghost rest = as_nats(vals@).subrange(g as int, n as int);
    let ghost old_out = out@;
    if n - g == 2 {
        out.push(vals[g] * 4 + vals[g + 1] / 16);
    } else if n - g == 3 {
        out.push(vals[g] * 4 + vals[g + 1] / 16);
        out.push((vals[g + 1] % 16) * 16 + vals[g + 2] / 4);
    }
    proof {
        if n - g == 2 {
            assert(out@ =~= old_out + seq![b64_byte0(rest[0], rest[1])]);
        } else if n - g == 3 {
            assert(out@ =~= old_out + seq![b64_byte0(rest[0], rest[1]), b64_byte1(rest[1], rest[2])]);
        } else {
            assert(out@ =~= old_out + b64_bytes(rest));
        }
    }
    assert(out@ =~= b64_bytes(as_nats(vals@)));
    Some(out)
}

/// The mathematical state of the detector.
pub struct OscState {
    pub matched: nat,
    pub payload: Seq<u8>,
    pub collecting: bool,
}

/// `ESC ] 5 2 ;`
pub open spec fn osc52_prefix() -> Seq<u8> {
    seq![0x1bu8, 0x5du8, 0x35u8, 0x32u8, 0x3bu8]
}

/// The first position of `;` in `p`, if any.
pub open spec fn first_semicolon(p: Seq<u8>, i: int) -> Option<int>
    decreases p.len() - i,
{
    if i < 0 || i >= p.len() {
        None
    } else if p[i] == 0x3b {
        Some(i)
    } else {
        first_semicolon(p, i + 1)
    }
}

/// The text to put on the clipboard for a complete OSC 52 payload
/// `selection ; base64`: the decoded data, unless the data is the query `?`
/// or not valid base64, or the payload has no `;`.
pub open spec fn clipboard_of(payload: Seq<u8>) -> Option<Seq<u8>> {
    match first_semicolon(payload, 0) {
        None => None,
        Some(s) => {
            let data = payload.subrange(s + 1, payload.len() as int);
            if data == seq![0x3fu8] {
                None
            } else {
                b64_decode_spec(data)
            }
        },
    }
}

/// One byte of output through the detector: the next state, and the
/// clipboard text of a request that the byte completes.
pub open spec fn osc_step(st: OscState, b: u8) -> (OscState, Option<Seq<u8>>) {
    if st.collecting {
        if b == 0x07 {
            (OscState { matched: st.matched, payload: Seq::empty(), collecting: false }, clipboard_of(st.payload))
        } else if b == 0x5c && st.payload.len() > 0 && st.payload.last() == 0x1b {
            (
                OscState { matched: st.matched, payload: Seq::empty(), collecting: false },
                clipboard_of(st.payload.drop_last()),
            )
        } else if st.payload.len() + 1 > 100_000 {
            (OscState { matched: st.matched, payload: Seq::empty(), collecting: false }, None)
        } else {
            (OscState { matched: st.matched, payload: st.payload.push(b), collecting: true }, None)
        }
    } else if st.matched < 5 && b == osc52_prefix()[st.matched as int] {
        if st.matched + 1 == 5 {
            (OscState { matched: 0, payload: st.payload, collecting: true }, None)
        } else {
            (OscState { matched: st.matched + 1, payload: st.payload, collecting: false }, None)
        }
    } else {
        (
            OscState {
                matched: if b == 0x1b {
                    1
                } else {
                    0
                },
                payload: st.payload,
                collecting: false,
            },
            None,
        )
    }
}

pub open spec fn opt_list(o: Option<Seq<u8>>) -> Seq<Seq<u8>> {
    match o {
        Some(x) => seq![x],
        None => Seq::empty(),
    }
}

/// A stretch of output through the detector: the final state and the
/// clipboard texts of the requests completed, in order.
pub open spec fn osc_run(st: OscState, d: Seq<u8>) -> (OscState, Seq<Seq<u8>>)
    decreases d.len(),
{
    if d.len() == 0 {
        (st, Seq::empty())
    } else {
        let (s1, o1) = osc_run(st, d.drop_last());
        let (s2, o2) = osc_step(s1, d.last());
        (s2, o1 + opt_list(o2))
    }
}

/// Feeding output in two reads gives the same state and requests as feeding
/// it in one.
pub proof fn lemma_osc_run_split(st: OscState, a: Seq<u8>, b: Seq<u8>)
    ensures
        osc_run(st, a + b).0 == osc_run(osc_run(st, a).0, b).0,
        osc_run(st, a + b).1 == osc_run(st, a).1 + osc_run(osc_run(st, a).0, b).1,
    decreases b.len(),
{
    if b.len() == 0 {
        assert(a + b =~= a);
        assert(osc_run(st, a).1 + Seq::<Seq<u8>>::empty() =~= osc_run(st, a).1);
    } else {
        lemma_osc_run_split(st, a, b.drop_last());
        assert((a + b).drop_last() =~= a + b.drop_last());
        assert((a + b).last() == b.last());
        let (s1, o1) = osc_run(osc_run(st, a).0, b.drop_last());
        let (s2, o2) = osc_step(s1, b.last());
        assert(osc_run(st, a).1 + o1 + opt_list(o2) =~= osc_run(st, a).1 + (o1 + opt_list(o2)));
    }
}

/// Watches terminal output for OSC 52 clipboard requests.
pub struct Osc52Detector {
    prefix_matched: usize,
    payload: Vec<u8>,
    collecting: bool,
}

impl View for Osc52Detector {
    type V = OscState;

    closed spec fn view(&self) -> OscState {
        OscState {
            matched: self.prefix_matched as nat,
            payload: self.payload@,
            collecting: self.collecting,
        }
    }
}

impl Osc52Detector {
    /// The detector's invariant: a partial prefix match while not collecting,
    /// no buffered payload while not collecting, and a bounded payload.
    pub closed spec fn wf(self) -> bool {
        &&& self.prefix_matched < 5
        &&& self.payload@.len() <= 100_000
        &&& !self.collecting ==> self.payload@.len() == 0
    }

    pub fn new() -> (r: Self)
        ensures
            r.wf(),
            r@ == (OscState { matched: 0, payload: Seq::empty(), collecting: false }),
    {
        Osc52Detector { prefix_matched: 0, payload: Vec::new(), collecting: false }
    }

    /// Takes the buffered payload as a complete request and returns its
    /// clipboard text, if any.
    fn handle_complete(&mut self) -> (r: Option<Vec<u8>>)
        ensures
            final(self).payload@ == Seq::<u8>::empty(),
            !final(self).collecting,
            final(self).prefix_matched == old(self).prefix_matched,
            match clipboard_of(old(self).payload@) {
                Some(t) => r matches Some(v) && v@ == t,
                None => r is None,
            },
    {
        self.collecting = false;
        let mut s: usize = 0;
        while s < self.payload.len() && self.payload[s] != 0x3b
            invariant
                s <= self.payload.len(),
                first_semicolon(self.payload@, 0) == first_semicolon(self.payload@, s as int),
            decreases self.payload.len() - s,
        {
            s = s + 1;
        }
        let mut r: Option<Vec<u8>> = None;
        if s < self.payload.len() {
            let data = slice_range(self.payload.as_slice(), s + 1, self.payload.len());
            if !(data.len() == 1 && data[0] == 0x3f) {
                r = base64_decode(data);
            } else {
                assert(data@ =~= seq![0x3fu8]);
            }
        }
        self.payload = Vec::new();
        r
    }

    /// Feeds output to the detector and returns the clipboard texts of the
    /// requests it completes, in order.
    pub fn process(&mut self, data: &[u8]) -> (r: Vec<Vec<u8>>)
        requires
            old(self).wf(),
        ensures
            final(self).wf(),
            final(self)@ == osc_run(old(self)@, data@).0,
            r@.len() == osc_run(old(self)@, data@).1.len(),
            forall|k: int| 0 <= k < r@.len() ==> r@[k]@ == osc_run(old(self)@, data@).1[k],
    {
        let mut out: Vec<Vec<u8>> = Vec::new();
        let mut i: usize = 0;
        let ghost start = self@;
        assert(data@.take(0) =~= Seq::<u8>::empty());
        while i < data.len()
            invariant
                i <= data.len(),
                self.wf(),
                self@ == osc_run(start, data@.take(i as int)).0,
                out@.len() == osc_run(start, data@.take(i as int)).1.len(),
                forall|k: int| 0 <= k < out@.len() ==> out@[k]@ == osc_run(start, data@.take(i as int)).1[k],
            decreases data.len() - i,
        {
            let b = data[i];
            let ghost before = self@;
            let ghost outs = osc_run(start, data@.take(i as int)).1;
            assert(data@.take(i + 1).drop_last() =~= data@.take(i as int));
            let mut done: Option<Vec<u8>> = None;
            if self.collecting {
                if b == 0x07 {
                    done = self.handle_complete();
                } else if b == 0x5c && self.payload.len() > 0 && self.payload[self.payload.len() - 1] == 0x1b {
                    self.payload.pop();
                    done = self.handle_complete();
                } else if self.payload.len() + 1 > 100_000 {
                    self.payload = Vec::new();
                    self.collecting = false;
                } else {
                    self.payload.push(b);
                }
            } else {
                let want: u8 = if self.prefix_matched == 0 {
                    0x1b
                } else if self.prefix_matched == 1 {
                    0x5d
                } else if self.prefix_matched == 2 {
                    0x35
                } else if self.prefix_matched == 3 {
                    0x32
                } else {
                    0x3b
                };
                if b == want {
                    self.prefix_matched = self.prefix_matched + 1;
                    if self.prefix_matched == 5 {
                        self.collecting = true;
                        self.prefix_matched = 0;
                    }
                } else {
                    self.prefix_matched = if b == 0x1b {
                        1
                    } else {
                        0
                    };
                }
            }
            proof {
                assert(self@ == osc_step(before, b).0);
            }
            match done {
                Some(v) => {
                    out.push(v);
                },
                None => {},
            }
            proof {
                let next = osc_run(start, data@.take(i + 1));
                assert(next.1 =~= outs + opt_list(osc_step(before, b).1));
            }
            i = i + 1;
        }
        assert(data@.take(data.len() as int) =~= data@);
        out
    }
}

} // verus!
