//! Translation of key, mouse, paste and focus events into the byte sequences
//! an application running in a pseudo-terminal expects (legacy xterm
//! encodings and the kitty keyboard protocol's `CSI u`).

use vstd::prelude::*;

use crate::text::{char_utf8, dec_digits, push_all, push_dec, str_bytes};

verus! {

/// Which modifier keys are held.
pub struct KeyModifiers {
    pub shift: bool,
    pub control: bool,
    pub alt: bool,
    pub super_key: bool,
    pub hyper: bool,
    pub meta: bool,
}

impl KeyModifiers {
    pub fn none() -> (r: Self)
        ensures
            !r.shift && !r.control && !r.alt && !r.super_key && !r.hyper && !r.meta,
    {
        KeyModifiers {
            shift: false,
            control: false,
            alt: false,
            super_key: false,
            hyper: false,
            meta: false,
        }
    }

    pub fn shift() -> (r: Self)
        ensures
            r.shift && !r.control && !r.alt && !r.super_key && !r.hyper && !r.meta,
    {
        KeyModifiers { shift: true, ..KeyModifiers::none() }
    }

    pub fn control() -> (r: Self)
        ensures
            !r.shift && r.control && !r.alt && !r.super_key && !r.hyper && !r.meta,
    {
        KeyModifiers { control: true, ..KeyModifiers::none() }
    }

    pub fn alt() -> (r: Self)
        ensures
            !r.shift && !r.control && r.alt && !r.super_key && !r.hyper && !r.meta,
    {
        KeyModifiers { alt: true, ..KeyModifiers::none() }
    }

    pub fn super_key() -> (r: Self)
        ensures
            !r.shift && !r.control && !r.alt && r.super_key && !r.hyper && !r.meta,
    {
        KeyModifiers { super_key: true, ..KeyModifiers::none() }
    }

    pub fn hyper() -> (r: Self)
        ensures
            !r.shift && !r.control && !r.alt && !r.super_key && r.hyper && !r.meta,
    {
        KeyModifiers { hyper: true, ..KeyModifiers::none() }
    }

    pub fn meta() -> (r: Self)
        ensures
            !r.shift && !r.control && !r.alt && !r.super_key && !r.hyper && r.meta,
    {
        KeyModifiers { meta: true, ..KeyModifiers::none() }
    }

    /// The modifiers held in either set.
    pub fn union(self, other: Self) -> (r: Self)
        ensures
            r.shift == (self.shift || other.shift),
            r.control == (self.control || other.control),
            r.alt == (self.alt || other.alt),
            r.super_key == (self.super_key || other.super_key),
            r.hyper == (self.hyper || other.hyper),
            r.meta == (self.meta || other.meta),
    {
        KeyModifiers {
            shift: self.shift || other.shift,
            control: self.control || other.control,
            alt: self.alt || other.alt,
            super_key: self.super_key || other.super_key,
            hyper: self.hyper || other.hyper,
            meta: self.meta || other.meta,
        }
    }

    /// Exactly Shift, nothing else.
    pub open spec fn is_only_shift(self) -> bool {
        self.shift && !self.control && !self.alt && !self.super_key && !self.hyper && !self.meta
    }
}

/// A key on the keyboard.
pub enum KeyCode {
    Backspace,
    Enter,
    Left,
    Right,
    Up,
    Down,
    Home,
    End,
    PageUp,
    PageDown,
    Tab,
    BackTab,
    Delete,
    Insert,
    F(u8),
    Char(char),
    Esc,
    /// Any other key (media keys, lock keys, lone modifiers...).
    Other,
}

/// A key press.
pub struct KeyEvent {
    pub code: KeyCode,
    pub modifiers: KeyModifiers,
}

/// The kitty protocol modifier parameter: one plus the sum of Shift 1, Alt 2,
/// Ctrl 4, Super 8, Hyper 16, Meta 32; zero when no modifier is held.
pub open spec fn xmod(m: KeyModifiers) -> nat {
    let s = (if m.shift {
        1nat
    } else {
        0nat
    }) + (if m.alt {
        2nat
    } else {
        0nat
    }) + (if m.control {
        4nat
    } else {
        0nat
    }) + (if m.super_key {
        8nat
    } else {
        0nat
    }) + (if m.hyper {
        16nat
    } else {
        0nat
    }) + (if m.meta {
        32nat
    } else {
        0nat
    });
    if s > 0 {
        s + 1
    } else {
        0
    }
}

/// Computes the kitty keyboard protocol modifier parameter.
pub fn xterm_modifier(mods: &KeyModifiers) -> (r: u8)
    ensures
        r as nat == xmod(*mods),
        r <= 64,
{
    let mut m: u8 = 0;
    if mods.shift {
        m = m + 1;
    }
    if mods.alt {
        m = m + 2;
    }
    if mods.control {
        m = m + 4;
    }
    if mods.super_key {
        m = m + 8;
    }
    if mods.hyper {
        m = m + 16;
    }
    if mods.meta {
        m = m + 32;
    }
    if m > 0 {
        m + 1
    } else {
        0
    }
}

/// Whether legacy encodings cannot represent the modifiers on a character key:
/// any of Super, Hyper, Meta, or two or more of Ctrl, Shift, Alt.
pub open spec fn spec_needs_csi_u(m: KeyModifiers) -> bool {
    m.super_key || m.hyper || m.meta || (m.control && m.shift) || (m.control && m.alt) || (m.alt
        && m.shift)
}

pub fn needs_csi_u(mods: &KeyModifiers) -> (r: bool)
    ensures
        r == spec_needs_csi_u(*mods),
{
    if mods.super_key || mods.hyper || mods.meta {
        return true;
    }
    let has_ctrl = mods.control;
    let has_shift = mods.shift;
    let has_alt = mods.alt;
    (has_ctrl && has_shift) || (has_ctrl && has_alt) || (has_alt && has_shift)
}

/// `ESC [ codepoint ; modifier u`, or `ESC [ codepoint u` without modifier.
pub open spec fn csi_u_bytes(codepoint: nat, modifier: nat) -> Seq<u8> {
    if modifier > 0 {
        seq![0x1bu8, 0x5bu8] + dec_digits(codepoint) + seq![0x3bu8] + dec_digits(modifier) + seq![
            0x75u8,
        ]
    } else {
        seq![0x1bu8, 0x5bu8] + dec_digits(codepoint) + seq![0x75u8]
    }
}

/// Generates a `CSI u` key sequence.
pub fn csi_u(codepoint: u32, modifier: u8) -> (r: Vec<u8>)
    ensures
        r@ == csi_u_bytes(codepoint as nat, modifier as nat),
{
    let mut v: Vec<u8> = Vec::new();
    v.push(0x1b);
    v.push(0x5b);
    push_dec(&mut v, codepoint as u64);
    if modifier > 0 {
        v.push(0x3b);
        push_dec(&mut v, modifier as u64);
    }
    v.push(0x75);
    proof {
        if modifier > 0 {
            assert(v@ =~= csi_u_bytes(codepoint as nat, modifier as nat));
        } else {
            assert(v@ =~= csi_u_bytes(codepoint as nat, modifier as nat));
        }
    }
    v
}

/// `ESC [ 1 ; modifier suffix`
pub open spec fn special_csi_bytes(suffix: u8, modifier: nat) -> Seq<u8> {
    seq![0x1bu8, 0x5bu8, 0x31u8, 0x3bu8] + dec_digits(modifier) + seq![suffix]
}

/// Generates a modified special key sequence of the `CSI 1 ; m <letter>` form.
pub fn modified_special_key_csi(suffix: u8, modifier: u8) -> (r: Vec<u8>)
    ensures
        r@ == special_csi_bytes(suffix, modifier as nat),
{
    let mut v: Vec<u8> = Vec::new();
    v.push(0x1b);
    v.push(0x5b);
    v.push(0x31);
    v.push(0x3b);
    push_dec(&mut v, modifier as u64);
    v.push(suffix);
    assert(v@ =~= special_csi_bytes(suffix, modifier as nat));
    v
}

/// `ESC [ code ; modifier ~`
pub open spec fn special_tilde_bytes(code: nat, modifier: nat) -> Seq<u8> {
    seq![0x1bu8, 0x5bu8] + dec_digits(code) + seq![0x3bu8] + dec_digits(modifier) + seq![0x7eu8]
}

/// Generates a modified special key sequence of the `CSI code ; m ~` form.
pub fn modified_special_key_tilde(code: u16, modifier: u8) -> (r: Vec<u8>)
    ensures
        r@ == special_tilde_bytes(code as nat, modifier as nat),
{
    let mut v: Vec<u8> = Vec::new();
    v.push(0x1b);
    v.push(0x5b);
    push_dec(&mut v, code as u64);
    v.push(0x3b);
    push_dec(&mut v, modifier as u64);
    v.push(0x7e);
    assert(v@ =~= special_tilde_bytes(code as nat, modifier as nat));
    v
}

/// ASCII lowercase of a character (other characters unchanged).
pub open spec fn ascii_lower(c: char) -> char {
    if 'A' <= c && c <= 'Z' {
        ((c as u32) + 32) as char
    } else {
        c
    }
}

pub open spec fn is_ascii_alpha(c: char) -> bool {
    ('a' <= c && c <= 'z') || ('A' <= c && c <= 'Z')
}

/// The bytes of a character key.
pub open spec fn char_key_bytes(c: char, m: KeyModifiers) -> Seq<u8> {
    if spec_needs_csi_u(m) {
        csi_u_bytes(ascii_lower(c) as nat, xmod(m))
    } else if m.control {
        if is_ascii_alpha(c) {
            seq![((ascii_lower(c) as u32) - 96) as u8]
        } else if c == ' ' {
            seq![0u8]
        } else if c == '[' {
            seq![0x1bu8]
        } else if c == '\\' {
            seq![0x1cu8]
        } else if c == ']' {
            seq![0x1du8]
        } else {
            csi_u_bytes(c as nat, xmod(m))
        }
    } else if m.alt {
        seq![0x1bu8] + vstd::utf8::encode_scalar(c as u32)
    } else {
        vstd::utf8::encode_scalar(c as u32)
    }
}

/// An arrow key: modified `CSI 1 ; m X`, or `SS3 X` in application cursor mode,
/// or `CSI X`.
pub open spec fn arrow_bytes(letter: u8, m: KeyModifiers, app_cursor: bool) -> Seq<u8> {
    if xmod(m) > 0 {
        special_csi_bytes(letter, xmod(m))
    } else if app_cursor {
        seq![0x1bu8, 0x4fu8, letter]
    } else {
        seq![0x1bu8, 0x5bu8, letter]
    }
}

/// Home and End: modified `CSI 1 ; m X`, else `CSI X`.
pub open spec fn home_end_bytes(letter: u8, m: KeyModifiers) -> Seq<u8> {
    if xmod(m) > 0 {
        special_csi_bytes(letter, xmod(m))
    } else {
        seq![0x1bu8, 0x5bu8, letter]
    }
}

/// Keys of the `CSI code ~` family.
pub open spec fn tilde_bytes(code: nat, m: KeyModifiers) -> Seq<u8> {
    if xmod(m) > 0 {
        special_tilde_bytes(code, xmod(m))
    } else {
        seq![0x1bu8, 0x5bu8] + dec_digits(code) + seq![0x7eu8]
    }
}

/// F1 to F4: modified `CSI 1 ; m X`, else `SS3 X`.
pub open spec fn ss3_f_bytes(letter: u8, m: KeyModifiers) -> Seq<u8> {
    if xmod(m) > 0 {
        special_csi_bytes(letter, xmod(m))
    } else {
        seq![0x1bu8, 0x4fu8, letter]
    }
}

/// The `~` code of F5 to F12.
pub open spec fn f_tilde_code(n: u8) -> nat {
    if n == 5 {
        15
    } else if n == 6 {
        17
    } else if n == 7 {
        18
    } else if n == 8 {
        19
    } else if n == 9 {
        20
    } else if n == 10 {
        21
    } else if n == 11 {
        23
    } else {
        24
    }
}

/// The bytes of a function key.
pub open spec fn f_key_bytes(n: u8, m: KeyModifiers) -> Seq<u8> {
    if n == 1 {
        ss3_f_bytes(0x50, m)
    } else if n == 2 {
        ss3_f_bytes(0x51, m)
    } else if n == 3 {
        ss3_f_bytes(0x52, m)
    } else if n == 4 {
        ss3_f_bytes(0x53, m)
    } else if 5 <= n && n <= 12 {
        tilde_bytes(f_tilde_code(n), m)
    } else {
        Seq::empty()
    }
}

/// Enter, Backspace and Esc: `CSI u` when modified or when the inner application
/// asked for enhanced keys, else their legacy byte.
pub open spec fn ambiguous_bytes(codepoint: nat, legacy: u8, m: KeyModifiers, enhanced: bool) -> Seq<
    u8,
> {
    if xmod(m) > 0 || enhanced {
        csi_u_bytes(codepoint, xmod(m))
    } else {
        seq![legacy]
    }
}

/// The bytes sent to the terminal application for a key press.
pub open spec fn key_bytes(key: KeyEvent, app_cursor: bool, enhanced: bool) -> Seq<u8> {
    let m = key.modifiers;
    match key.code {
        KeyCode::Char(c) => if c == ' ' && enhanced {
            csi_u_bytes(32, xmod(m))
        } else {
            char_key_bytes(c, m)
        },
        KeyCode::Enter => ambiguous_bytes(13, 0x0d, m, enhanced),
        KeyCode::Backspace => ambiguous_bytes(127, 0x7f, m, enhanced),
        KeyCode::Esc => ambiguous_bytes(27, 0x1b, m, enhanced),
        KeyCode::Tab => if enhanced {
            csi_u_bytes(9, xmod(m))
        } else if m.is_only_shift() {
            seq![0x1bu8, 0x5bu8, 0x5au8]
        } else if xmod(m) > 0 {
            csi_u_bytes(9, xmod(m))
        } else {
            seq![0x09u8]
        },
        KeyCode::BackTab => if enhanced {
            csi_u_bytes(
                9,
                if xmod(m) > 0 {
                    xmod(m)
                } else {
                    2
                },
            )
        } else if xmod(m) > 2 {
            csi_u_bytes(9, xmod(m))
        } else {
            seq![0x1bu8, 0x5bu8, 0x5au8]
        },
        KeyCode::Up => arrow_bytes(0x41, m, app_cursor),
        KeyCode::Down => arrow_bytes(0x42, m, app_cursor),
        KeyCode::Right => arrow_bytes(0x43, m, app_cursor),
        KeyCode::Left => arrow_bytes(0x44, m, app_cursor),
        KeyCode::Home => home_end_bytes(0x48, m),
        KeyCode::End => home_end_bytes(0x46, m),
        KeyCode::PageUp => tilde_bytes(5, m),
        KeyCode::PageDown => tilde_bytes(6, m),
        KeyCode::Insert => tilde_bytes(2, m),
        KeyCode::Delete => tilde_bytes(3, m),
        KeyCode::F(n) => f_key_bytes(n, m),
        KeyCode::Other => Seq::empty(),
    }
}

fn char_key_to_bytes(c: char, mods: &KeyModifiers) -> (r: Vec<u8>)
    ensures
        r@ == char_key_bytes(c, *mods),
{
    let xm = xterm_modifier(mods);
    if needs_csi_u(mods) {
        let lower = if 'A' <= c && c <= 'Z' {
            (c as u32) + 32
        } else {
            c as u32
        };
        return csi_u(lower, xm);
    }
    if mods.control {
        if ('a' <= c && c <= 'z') || ('A' <= c && c <= 'Z') {
            let lower = if 'A' <= c && c <= 'Z' {
                (c as u32) + 32
            } else {
                c as u32
            };
            let mut v: Vec<u8> = Vec::new();
            v.push((lower - 96) as u8);
            v
        } else if c == ' ' {
            let mut v: Vec<u8> = Vec::new();
            v.push(0);
            v
        } else if c == '[' {
            let mut v: Vec<u8> = Vec::new();
            v.push(0x1b);
            v
        } else if c == '\\' {
            let mut v: Vec<u8> = Vec::new();
            v.push(0x1c);
            v
        } else if c == ']' {
            let mut v: Vec<u8> = Vec::new();
            v.push(0x1d);
            v
        } else {
            csi_u(c as u32, xm)
        }
    } else if mods.alt {
        let mut v: Vec<u8> = Vec::new();
        v.push(0x1b);
        let enc = char_utf8(c);
        push_all(&mut v, enc.as_slice());
        v
    } else {
        char_utf8(c)
    }
}

fn ambiguous_key_to_bytes(codepoint: u32, legacy: u8, mods: &KeyModifiers, enhanced: bool) -> (r: Vec<
    u8,
>)
    ensures
        r@ == ambiguous_bytes(codepoint as nat, legacy, *mods, enhanced),
{
    let xm = xterm_modifier(mods);
    if xm > 0 || enhanced {
        csi_u(codepoint, xm)
    } else {
        let mut v: Vec<u8> = Vec::new();
        v.push(legacy);
        v
    }
}

fn three_bytes(a: u8, b: u8, c: u8) -> (r: Vec<u8>)
    ensures
        r@ == seq![a, b, c],
{
    let mut v: Vec<u8> = Vec::new();
    v.push(a);
    v.push(b);
    v.push(c);
    assert(v@ =~= seq![a, b, c]);
    v
}

fn arrow_to_bytes(letter: u8, mods: &KeyModifiers, app_cursor: bool) -> (r: Vec<u8>)
    ensures
        r@ == arrow_bytes(letter, *mods, app_cursor),
{
    let xm = xterm_modifier(mods);
    if xm > 0 {
        modified_special_key_csi(letter, xm)
    } else if app_cursor {
        three_bytes(0x1b, 0x4f, letter)
    } else {
        three_bytes(0x1b, 0x5b, letter)
    }
}

fn home_end_to_bytes(letter: u8, mods: &KeyModifiers) -> (r: Vec<u8>)
    ensures
        r@ == home_end_bytes(letter, *mods),
{
    let xm = xterm_modifier(mods);
    if xm > 0 {
        modified_special_key_csi(letter, xm)
    } else {
        three_bytes(0x1b, 0x5b, letter)
    }
}

fn tilde_to_bytes(code: u16, mods: &KeyModifiers) -> (r: Vec<u8>)
    ensures
        r@ == tilde_bytes(code as nat, *mods),
{
    let xm = xterm_modifier(mods);
    if xm > 0 {
        modified_special_key_tilde(code, xm)
    } else {
        let mut v: Vec<u8> = Vec::new();
        v.push(0x1b);
        v.push(0x5b);
        push_dec(&mut v, code as u64);
        v.push(0x7e);
        assert(v@ =~= seq![0x1bu8, 0x5bu8] + dec_digits(code as nat) + seq![0x7eu8]);
        v
    }
}

fn ss3_f_to_bytes(letter: u8, mods: &KeyModifiers) -> (r: Vec<u8>)
    ensures
        r@ == ss3_f_bytes(letter, *mods),
{
    let xm = xterm_modifier(mods);
    if xm > 0 {
        modified_special_key_csi(letter, xm)
    } else {
        three_bytes(0x1b, 0x4f, letter)
    }
}

/// Translates a key press into the bytes to send to the terminal application.
/// When the inner application asked for enhanced keys (`inner_enhanced`),
/// Enter, Tab, Backspace, Esc and Space are always sent as `CSI u`; otherwise they use
/// their legacy bytes unless modified. Character keys use `CSI u` for modifier
/// combinations that legacy encodings cannot express; arrows, navigation and
/// function keys use the xterm modified forms.
pub fn key_to_bytes(key: &KeyEvent, app_cursor: bool, inner_enhanced: bool) -> (r: Vec<u8>)
    ensures
        r@ == key_bytes(*key, app_cursor, inner_enhanced),
{
    let mods = &key.modifiers;
    match key.code {
        KeyCode::Char(c) => if c == ' ' && inner_enhanced {
            csi_u(32, xterm_modifier(mods))
        } else {
            char_key_to_bytes(c, mods)
        },
        KeyCode::Enter => ambiguous_key_to_bytes(13, 0x0d, mods, inner_enhanced),
        KeyCode::Backspace => ambiguous_key_to_bytes(127, 0x7f, mods, inner_enhanced),
        KeyCode::Esc => ambiguous_key_to_bytes(27, 0x1b, mods, inner_enhanced),
        KeyCode::Tab => {
            let xm = xterm_modifier(mods);
            let only_shift = mods.shift && !mods.control && !mods.alt && !mods.super_key
                && !mods.hyper && !mods.meta;
            if inner_enhanced {
                csi_u(9, xm)
            } else if only_shift {
                three_bytes(0x1b, 0x5b, 0x5a)
            } else if xm > 0 {
                csi_u(9, xm)
            } else {
                let mut v: Vec<u8> = Vec::new();
                v.push(0x09);
                v
            }
        },
        KeyCode::BackTab => {
            let xm = xterm_modifier(mods);
            if inner_enhanced {
                let mod_val = if xm > 0 {
                    xm
                } else {
                    2
                };
                csi_u(9, mod_val)
            } else if xm > 2 {
                csi_u(9, xm)
            } else {
                three_bytes(0x1b, 0x5b, 0x5a)
            }
        },
        KeyCode::Up => arrow_to_bytes(0x41, mods, app_cursor),
        KeyCode::Down => arrow_to_bytes(0x42, mods, app_cursor),
        KeyCode::Right => arrow_to_bytes(0x43, mods, app_cursor),
        KeyCode::Left => arrow_to_bytes(0x44, mods, app_cursor),
        KeyCode::Home => home_end_to_bytes(0x48, mods),
        KeyCode::End => home_end_to_bytes(0x46, mods),
        KeyCode::PageUp => tilde_to_bytes(5, mods),
        KeyCode::PageDown => tilde_to_bytes(6, mods),
        KeyCode::Insert => tilde_to_bytes(2, mods),
        KeyCode::Delete => tilde_to_bytes(3, mods),
        KeyCode::F(n) => {
            if n == 1 {
                ss3_f_to_bytes(0x50, mods)
            } else if n == 2 {
                ss3_f_to_bytes(0x51, mods)
            } else if n == 3 {
                ss3_f_to_bytes(0x52, mods)
            } else if n == 4 {
                ss3_f_to_bytes(0x53, mods)
            } else if 5 <= n && n <= 12 {
                let code: u16 = if n == 5 {
                    15
                } else if n == 6 {
                    17
                } else if n == 7 {
                    18
                } else if n == 8 {
                    19
                } else if n == 9 {
                    20
                } else if n == 10 {
                    21
                } else if n == 11 {
                    23
                } else {
                    24
                };
                tilde_to_bytes(code, mods)
            } else {
                Vec::new()
            }
        },
        KeyCode::Other => Vec::new(),
    }
}

/// A press of `code` with modifiers `m`.
pub open spec fn press(code: KeyCode, m: KeyModifiers) -> KeyEvent {
    KeyEvent { code, modifiers: m }
}

/// `ESC [ digits ~`, or `ESC [ digits ; mod ~` when a modifier is held.
pub open spec fn tilde_sequence(digits: Seq<u8>, m: KeyModifiers) -> Seq<u8> {
    if xmod(m) == 0 {
        seq![0x1bu8, 0x5bu8] + digits + seq![0x7eu8]
    } else {
        seq![0x1bu8, 0x5bu8] + digits + seq![0x3bu8] + dec_digits(xmod(m)) + seq![0x7eu8]
    }
}

/// `ESC [ 1 ; mod X` when a modifier is held, else `unmodified`.
pub open spec fn letter_sequence(letter: u8, m: KeyModifiers, unmodified: Seq<u8>) -> Seq<u8> {
    if xmod(m) == 0 {
        unmodified
    } else {
        seq![0x1bu8, 0x5bu8, 0x31u8, 0x3bu8] + dec_digits(xmod(m)) + seq![letter]
    }
}

proof fn lemma_dec_digits_small()
    ensures
        dec_digits(2) == seq![0x32u8],
        dec_digits(3) == seq![0x33u8],
        dec_digits(5) == seq![0x35u8],
        dec_digits(6) == seq![0x36u8],
        dec_digits(9) == seq![0x39u8],
        dec_digits(13) == seq![0x31u8, 0x33u8],
        dec_digits(15) == seq![0x31u8, 0x35u8],
        dec_digits(17) == seq![0x31u8, 0x37u8],
        dec_digits(18) == seq![0x31u8, 0x38u8],
        dec_digits(19) == seq![0x31u8, 0x39u8],
        dec_digits(20) == seq![0x32u8, 0x30u8],
        dec_digits(21) == seq![0x32u8, 0x31u8],
        dec_digits(23) == seq![0x32u8, 0x33u8],
        dec_digits(24) == seq![0x32u8, 0x34u8],
        dec_digits(27) == seq![0x32u8, 0x37u8],
        dec_digits(32) == seq![0x33u8, 0x32u8],
        dec_digits(127) == seq![0x31u8, 0x32u8, 0x37u8],
{
    reveal_with_fuel(dec_digits, 3);
    assert(dec_digits(13) =~= seq![0x31u8, 0x33u8]);
    assert(dec_digits(15) =~= seq![0x31u8, 0x35u8]);
    assert(dec_digits(17) =~= seq![0x31u8, 0x37u8]);
    assert(dec_digits(18) =~= seq![0x31u8, 0x38u8]);
    assert(dec_digits(19) =~= seq![0x31u8, 0x39u8]);
    assert(dec_digits(20) =~= seq![0x32u8, 0x30u8]);
    assert(dec_digits(21) =~= seq![0x32u8, 0x31u8]);
    assert(dec_digits(23) =~= seq![0x32u8, 0x33u8]);
    assert(dec_digits(24) =~= seq![0x32u8, 0x34u8]);
    assert(dec_digits(27) =~= seq![0x32u8, 0x37u8]);
    assert(dec_digits(32) =~= seq![0x33u8, 0x32u8]);
    assert(dec_digits(12) =~= seq![0x31u8, 0x32u8]);
    assert(dec_digits(127) =~= seq![0x31u8, 0x32u8, 0x37u8]);
}

/// Page Up, Page Down, Insert, Delete and F5 to F12 send xterm's
/// `ESC [ n ~` with their own numbers (5, 6, 2, 3; 15, 17, 18, 19, 20, 21,
/// 23, 24), with `; mod` before the `~` when a modifier is held; the cursor
/// mode and the enhanced-keys mode do not change them.
pub proof fn lemma_tilde_keys(m: KeyModifiers, app_cursor: bool, enhanced: bool)
    ensures
        key_bytes(press(KeyCode::PageUp, m), app_cursor, enhanced) == tilde_sequence(seq![0x35u8], m),
        key_bytes(press(KeyCode::PageDown, m), app_cursor, enhanced) == tilde_sequence(seq![0x36u8], m),
        key_bytes(press(KeyCode::Insert, m), app_cursor, enhanced) == tilde_sequence(seq![0x32u8], m),
        key_bytes(press(KeyCode::Delete, m), app_cursor, enhanced) == tilde_sequence(seq![0x33u8], m),
        key_bytes(press(KeyCode::F(5), m), app_cursor, enhanced) == tilde_sequence(seq![0x31u8, 0x35u8], m),
        key_bytes(press(KeyCode::F(6), m), app_cursor, enhanced) == tilde_sequence(seq![0x31u8, 0x37u8], m),
        key_bytes(press(KeyCode::F(7), m), app_cursor, enhanced) == tilde_sequence(seq![0x31u8, 0x38u8], m),
        key_bytes(press(KeyCode::F(8), m), app_cursor, enhanced) == tilde_sequence(seq![0x31u8, 0x39u8], m),
        key_bytes(press(KeyCode::F(9), m), app_cursor, enhanced) == tilde_sequence(seq![0x32u8, 0x30u8], m),
        key_bytes(press(KeyCode::F(10), m), app_cursor, enhanced) == tilde_sequence(seq![0x32u8, 0x31u8], m),
        key_bytes(press(KeyCode::F(11), m), app_cursor, enhanced) == tilde_sequence(seq![0x32u8, 0x33u8], m),
        key_bytes(press(KeyCode::F(12), m), app_cursor, enhanced) == tilde_sequence(seq![0x32u8, 0x34u8], m),
{
    lemma_dec_digits_small();
}

/// The arrows send `ESC [ A` .. `ESC [ D` (Up, Down, Right, Left), or
/// `ESC O A` .. in application cursor mode; Home and End send `ESC [ H` and
/// `ESC [ F`; F1 to F4 send `ESC O P` .. `ESC O S`. With a modifier held, each
/// sends `ESC [ 1 ; mod X` with its letter.
pub proof fn lemma_letter_keys(m: KeyModifiers, app_cursor: bool, enhanced: bool)
    ensures
        key_bytes(press(KeyCode::Up, m), app_cursor, enhanced) == letter_sequence(
            0x41,
            m,
            if app_cursor { seq![0x1bu8, 0x4fu8, 0x41u8] } else { seq![0x1bu8, 0x5bu8, 0x41u8] },
        ),
        key_bytes(press(KeyCode::Down, m), app_cursor, enhanced) == letter_sequence(
            0x42,
            m,
            if app_cursor { seq![0x1bu8, 0x4fu8, 0x42u8] } else { seq![0x1bu8, 0x5bu8, 0x42u8] },
        ),
        key_bytes(press(KeyCode::Right, m), app_cursor, enhanced) == letter_sequence(
            0x43,
            m,
            if app_cursor { seq![0x1bu8, 0x4fu8, 0x43u8] } else { seq![0x1bu8, 0x5bu8, 0x43u8] },
        ),
        key_bytes(press(KeyCode::Left, m), app_cursor, enhanced) == letter_sequence(
            0x44,
            m,
            if app_cursor { seq![0x1bu8, 0x4fu8, 0x44u8] } else { seq![0x1bu8, 0x5bu8, 0x44u8] },
        ),
        key_bytes(press(KeyCode::Home, m), app_cursor, enhanced) == letter_sequence(0x48, m, seq![0x1bu8, 0x5bu8, 0x48u8]),
        key_bytes(press(KeyCode::End, m), app_cursor, enhanced) == letter_sequence(0x46, m, seq![0x1bu8, 0x5bu8, 0x46u8]),
        key_bytes(press(KeyCode::F(1), m), app_cursor, enhanced) == letter_sequence(0x50, m, seq![0x1bu8, 0x4fu8, 0x50u8]),
        key_bytes(press(KeyCode::F(2), m), app_cursor, enhanced) == letter_sequence(0x51, m, seq![0x1bu8, 0x4fu8, 0x51u8]),
        key_bytes(press(KeyCode::F(3), m), app_cursor, enhanced) == letter_sequence(0x52, m, seq![0x1bu8, 0x4fu8, 0x52u8]),
        key_bytes(press(KeyCode::F(4), m), app_cursor, enhanced) == letter_sequence(0x53, m, seq![0x1bu8, 0x4fu8, 0x53u8]),
{
}

/// Enter, Backspace and Esc send CR, DEL and ESC when no modifier is held
/// and the application did not ask for enhanced keys; otherwise
/// `ESC [ 13 u`, `ESC [ 127 u` and `ESC [ 27 u`, with `; mod` before the `u`
/// when a modifier is held.
pub proof fn lemma_enter_backspace_esc(m: KeyModifiers, app_cursor: bool, enhanced: bool)
    ensures
        key_bytes(press(KeyCode::Enter, m), app_cursor, enhanced) == if xmod(m) == 0 && !enhanced {
            seq![0x0du8]
        } else if xmod(m) == 0 {
            seq![0x1bu8, 0x5bu8, 0x31u8, 0x33u8, 0x75u8]
        } else {
            seq![0x1bu8, 0x5bu8, 0x31u8, 0x33u8, 0x3bu8] + dec_digits(xmod(m)) + seq![0x75u8]
        },
        key_bytes(press(KeyCode::Backspace, m), app_cursor, enhanced) == if xmod(m) == 0 && !enhanced {
            seq![0x7fu8]
        } else if xmod(m) == 0 {
            seq![0x1bu8, 0x5bu8, 0x31u8, 0x32u8, 0x37u8, 0x75u8]
        } else {
            seq![0x1bu8, 0x5bu8, 0x31u8, 0x32u8, 0x37u8, 0x3bu8] + dec_digits(xmod(m)) + seq![0x75u8]
        },
        key_bytes(press(KeyCode::Esc, m), app_cursor, enhanced) == if xmod(m) == 0 && !enhanced {
            seq![0x1bu8]
        } else if xmod(m) == 0 {
            seq![0x1bu8, 0x5bu8, 0x32u8, 0x37u8, 0x75u8]
        } else {
            seq![0x1bu8, 0x5bu8, 0x32u8, 0x37u8, 0x3bu8] + dec_digits(xmod(m)) + seq![0x75u8]
        },
{
    lemma_dec_digits_small();
}

/// Tab sends TAB, or `ESC [ Z` with Shift alone, and `ESC [ 9 ; mod u` with
/// other modifiers; when the application asked for enhanced keys it sends
/// `ESC [ 9 u` (with `; mod` when a modifier is held). An enhanced Space is
/// `ESC [ 32 u` likewise.
pub proof fn lemma_tab_and_space(m: KeyModifiers, app_cursor: bool)
    ensures
        key_bytes(press(KeyCode::Tab, m), app_cursor, false) == if xmod(m) == 0 {
            seq![0x09u8]
        } else if m.is_only_shift() {
            seq![0x1bu8, 0x5bu8, 0x5au8]
        } else {
            seq![0x1bu8, 0x5bu8, 0x39u8, 0x3bu8] + dec_digits(xmod(m)) + seq![0x75u8]
        },
        key_bytes(press(KeyCode::Tab, m), app_cursor, true) == if xmod(m) == 0 {
            seq![0x1bu8, 0x5bu8, 0x39u8, 0x75u8]
        } else {
            seq![0x1bu8, 0x5bu8, 0x39u8, 0x3bu8] + dec_digits(xmod(m)) + seq![0x75u8]
        },
        key_bytes(press(KeyCode::Char(' '), m), app_cursor, true) == if xmod(m) == 0 {
            seq![0x1bu8, 0x5bu8, 0x33u8, 0x32u8, 0x75u8]
        } else {
            seq![0x1bu8, 0x5bu8, 0x33u8, 0x32u8, 0x3bu8] + dec_digits(xmod(m)) + seq![0x75u8]
        },
{
    lemma_dec_digits_small();
}

/// Character keys: with no modifier a character is sent as its UTF-8 bytes
/// (Space too, unless enhanced keys were asked for); with Alt alone, ESC and
/// those bytes; with Ctrl alone a letter is sent as its control code (its
/// position in the alphabet, 1 to 26, whatever its case).
pub proof fn lemma_character_keys(c: char, app_cursor: bool, enhanced: bool)
    ensures
        (c != ' ' || !enhanced) ==> key_bytes(
            press(KeyCode::Char(c), KeyModifiers { shift: false, control: false, alt: false, super_key: false, hyper: false, meta: false }),
            app_cursor,
            enhanced,
        ) == vstd::utf8::encode_scalar(c as u32),
        (c != ' ' || !enhanced) ==> key_bytes(
            press(KeyCode::Char(c), KeyModifiers { shift: false, control: false, alt: true, super_key: false, hyper: false, meta: false }),
            app_cursor,
            enhanced,
        ) == seq![0x1bu8] + vstd::utf8::encode_scalar(c as u32),
        ('a' <= c && c <= 'z') ==> key_bytes(
            press(KeyCode::Char(c), KeyModifiers { shift: false, control: true, alt: false, super_key: false, hyper: false, meta: false }),
            app_cursor,
            enhanced,
        ) == seq![(c as u32 - 0x60) as u8],
        ('A' <= c && c <= 'Z') ==> key_bytes(
            press(KeyCode::Char(c), KeyModifiers { shift: false, control: true, alt: false, super_key: false, hyper: false, meta: false }),
            app_cursor,
            enhanced,
        ) == seq![(c as u32 - 0x40) as u8],
{
}

/// The modifier parameter of the xterm and kitty encodings: 0 with no
/// modifier, else one plus Shift 1, Alt 2, Ctrl 4, Super 8, Hyper 16,
/// Meta 32 (Shift alone 2, Alt 3, Ctrl 5, Ctrl+Shift 6, Super 9).
pub proof fn lemma_modifier_parameter(m: KeyModifiers)
    ensures
        xmod(m) == 0 <==> !(m.shift || m.alt || m.control || m.super_key || m.hyper || m.meta),
        xmod(m) > 0 ==> xmod(m) == 1 + (if m.shift { 1nat } else { 0 }) + (if m.alt { 2nat } else { 0 }) + (if m.control {
            4nat
        } else {
            0
        }) + (if m.super_key { 8nat } else { 0 }) + (if m.hyper { 16nat } else { 0 }) + (if m.meta { 32nat } else { 0 }),
        xmod(KeyModifiers { shift: true, control: false, alt: false, super_key: false, hyper: false, meta: false }) == 2,
        xmod(KeyModifiers { shift: false, control: false, alt: true, super_key: false, hyper: false, meta: false }) == 3,
        xmod(KeyModifiers { shift: false, control: true, alt: false, super_key: false, hyper: false, meta: false }) == 5,
        xmod(KeyModifiers { shift: true, control: true, alt: false, super_key: false, hyper: false, meta: false }) == 6,
        xmod(KeyModifiers { shift: false, control: false, alt: false, super_key: true, hyper: false, meta: false }) == 9,
{
}

/// Character keys that legacy encodings cannot carry (Super, Hyper or Meta
/// held, or two of Ctrl, Shift and Alt) go out as `ESC [ code ; mod u`, with
/// an ASCII capital's code lowered to its small letter's; Ctrl with Space,
/// `[`, `\` and `]` sends NUL, ESC, FS and GS.
pub proof fn lemma_character_keys_modified(c: char, m: KeyModifiers, app_cursor: bool)
    ensures
        ((m.super_key || m.hyper || m.meta || (m.control && m.shift) || (m.control && m.alt) || (m.alt && m.shift))
            && c != ' ') ==> key_bytes(press(KeyCode::Char(c), m), app_cursor, false) == seq![0x1bu8, 0x5bu8]
            + dec_digits(if 'A' <= c && c <= 'Z' { (c as u32 + 32) as nat } else { c as u32 as nat }) + seq![0x3bu8]
            + dec_digits(xmod(m)) + seq![0x75u8],
        ({
            let ctrl = KeyModifiers { shift: false, control: true, alt: false, super_key: false, hyper: false, meta: false };
            &&& key_bytes(press(KeyCode::Char(' '), ctrl), app_cursor, false) == seq![0x00u8]
            &&& key_bytes(press(KeyCode::Char('['), ctrl), app_cursor, false) == seq![0x1bu8]
            &&& key_bytes(press(KeyCode::Char('\\'), ctrl), app_cursor, false) == seq![0x1cu8]
            &&& key_bytes(press(KeyCode::Char(']'), ctrl), app_cursor, false) == seq![0x1du8]
        }),
{
    lemma_modifier_parameter(m);
}

} // verus!
