//! Keyboard input to the bytes a shell reads.
//!
//! Character messages deliver typed text with Enter, Tab and the Ctrl+letter control codes, so
//! that the shell does its own Tab completion. Key messages supply Backspace, navigation and
//! function keys as VT escapes, honoring application cursor keys and xterm's modifiers.

use vstd::prelude::*;

use crate::text;

verus! {

pub const VK_BACK: u16 = 0x08;

pub const VK_TAB: u16 = 0x09;

pub const VK_ESCAPE: u16 = 0x1b;

pub const VK_PRIOR: u16 = 0x21;

pub const VK_NEXT: u16 = 0x22;

pub const VK_END: u16 = 0x23;

pub const VK_HOME: u16 = 0x24;

pub const VK_LEFT: u16 = 0x25;

pub const VK_UP: u16 = 0x26;

pub const VK_RIGHT: u16 = 0x27;

pub const VK_DOWN: u16 = 0x28;

pub const VK_INSERT: u16 = 0x2d;

pub const VK_DELETE: u16 = 0x2e;

/// The C key.
pub const VK_C: u16 = 0x43;

/// The T key.
pub const VK_T: u16 = 0x54;

/// The V key.
pub const VK_V: u16 = 0x56;

/// The W key.
pub const VK_W: u16 = 0x57;

/// F1; the others follow it.
pub const VK_F1: u16 = 0x70;

pub const VK_F12: u16 = 0x7b;

/// The modifier keys held down.
#[derive(Clone, Copy, PartialEq, Eq, Structural, Debug)]
pub struct Modifiers {
    pub shift: bool,
    pub alt: bool,
    pub ctrl: bool,
}

impl Modifiers {
    /// The modifiers as bits: shift 1, alt 2, ctrl 4.
    pub open spec fn mask(self) -> nat {
        (if self.shift {
            1nat
        } else {
            0
        }) + (if self.alt {
            2nat
        } else {
            0
        }) + (if self.ctrl {
            4nat
        } else {
            0
        })
    }

    /// xterm's code for the modifiers: one more than the mask, and 0 where there are none.
    pub open spec fn code(self) -> nat {
        if self.mask() == 0 {
            0
        } else {
            1 + self.mask()
        }
    }
}

/// What a UTF-16 code unit sends: the UTF-8 of its character, and nothing for half a pair.
pub open spec fn unit_bytes(code_unit: u16) -> Seq<u8> {
    if 0xd800 <= code_unit < 0xe000 {
        seq![]
    } else {
        vstd::utf8::encode_utf8(seq![code_unit as u32 as char])
    }
}

/// Final byte of the keys that end in a letter.
pub open spec fn letter_final(vk: u16) -> Option<u8> {
    if vk == VK_UP {
        Some(0x41u8)
    } else if vk == VK_DOWN {
        Some(0x42u8)
    } else if vk == VK_RIGHT {
        Some(0x43u8)
    } else if vk == VK_LEFT {
        Some(0x44u8)
    } else if vk == VK_HOME {
        Some(0x48u8)
    } else if vk == VK_END {
        Some(0x46u8)
    } else {
        None
    }
}

/// Number of the editing keys that end in a tilde.
pub open spec fn tilde_number(vk: u16) -> Option<nat> {
    if vk == VK_INSERT {
        Some(2)
    } else if vk == VK_DELETE {
        Some(3)
    } else if vk == VK_PRIOR {
        Some(5)
    } else if vk == VK_NEXT {
        Some(6)
    } else {
        None
    }
}

/// Number of the function keys F5 to F12: 15 to 24 with gaps at 16 and 22.
pub open spec fn function_number(vk: u16) -> nat {
    (if vk == VK_F1 + 4 {
        15
    } else if vk <= VK_F1 + 9 {
        vk - VK_F1 + 12
    } else {
        vk - VK_F1 + 13
    }) as nat
}

/// `ESC [` and the decimal digits of `n`.
pub open spec fn csi_number(n: nat) -> Seq<u8> {
    seq![0x1bu8, 0x5b] + text::decimal(n)
}

/// What a key sends with modifier code `m`, if a key message sends it: a letter-final sequence for
/// the cursor keys, Home and End (`SS3` for application cursor keys, when unmodified), a tilde
/// sequence for the editing keys, an unmodified one for the function keys, DEL for Backspace (BS
/// with Ctrl).
pub open spec fn key_sequence(vk: u16, app_cursor: bool, m: nat) -> Option<Seq<u8>> {
    if letter_final(vk) is Some {
        let f = letter_final(vk)->0;
        if m != 0 {
            Some(csi_number(1).push(0x3b) + text::decimal(m).push(f))
        } else if app_cursor {
            Some(seq![0x1b, 0x4f, f])
        } else {
            Some(seq![0x1b, 0x5b, f])
        }
    } else if tilde_number(vk) is Some {
        let n = tilde_number(vk)->0;
        if m != 0 {
            Some(csi_number(n).push(0x3b) + text::decimal(m).push(0x7e))
        } else {
            Some(csi_number(n).push(0x7e))
        }
    } else if VK_F1 <= vk <= VK_F1 + 3 {
        Some(seq![0x1b, 0x4f, (0x50 + (vk - VK_F1)) as u8])
    } else if VK_F1 <= vk <= VK_F12 {
        Some(csi_number(function_number(vk)).push(0x7e))
    } else if vk == VK_BACK {
        Some(
            seq![
                if m >= 5 {
                    0x08u8
                } else {
                    0x7f
                },
            ],
        )
    } else {
        None
    }
}

/// Encode a typed UTF-16 code unit as UTF-8 bytes to send to the shell.
pub fn char_bytes(code_unit: u16) -> (bytes: Vec<u8>)
    ensures
        bytes@ == unit_bytes(code_unit),
{
    let mut out: Vec<u8> = Vec::new();
    if let Some(c) = char::from_u32(code_unit as u32) {
        let mut s: String = String::new();
        s.push(c);
        text::push_all(&mut out, s.as_str().as_bytes());
        proof {
            vstd::utf8::char_u32_cast(c, code_unit as u32);
            assert(s@ =~= seq![c]);
            assert(out@ =~= vstd::utf8::encode_utf8(seq![c]));
        }
    }
    out
}

/// xterm's modifier code: 1 and shift 1, alt 2, ctrl 4. 0 means no modifiers.
pub fn modifier_mask(mods: Modifiers) -> (m: u8)
    ensures
        m == mods.code(),
        m == (if mods.mask() == 0 {
            0
        } else {
            1 + mods.mask()
        }),
{
    let mut m: u8 = 0;
    if mods.shift {
        m = m + 1;
    }
    if mods.alt {
        m = m + 2;
    }
    if mods.ctrl {
        m = m + 4;
    }
    if m == 0 {
        0
    } else {
        1 + m
    }
}

fn letter(vk: u16) -> (f: Option<u8>)
    ensures
        f == letter_final(vk),
{
    if vk == VK_UP {
        Some(0x41)
    } else if vk == VK_DOWN {
        Some(0x42)
    } else if vk == VK_RIGHT {
        Some(0x43)
    } else if vk == VK_LEFT {
        Some(0x44)
    } else if vk == VK_HOME {
        Some(0x48)
    } else if vk == VK_END {
        Some(0x46)
    } else {
        None
    }
}

fn tilde(vk: u16) -> (n: Option<usize>)
    ensures
        n is Some == tilde_number(vk) is Some,
        n matches Some(k) ==> k as nat == tilde_number(vk)->0,
{
    if vk == VK_INSERT {
        Some(2)
    } else if vk == VK_DELETE {
        Some(3)
    } else if vk == VK_PRIOR {
        Some(5)
    } else if vk == VK_NEXT {
        Some(6)
    } else {
        None
    }
}

fn csi(n: usize) -> (out: Vec<u8>)
    ensures
        out@ == csi_number(n as nat),
{
    let mut out: Vec<u8> = vec![0x1b, 0x5b];
    text::push_decimal(&mut out, n);
    proof {
        assert(out@ =~= csi_number(n as nat));
    }
    out
}

/// Encode a key as the bytes to send to the shell, or `None` for keys that arrive as characters
/// instead.
pub fn key_bytes(vk: u16, app_cursor: bool, mods: Modifiers) -> (bytes: Option<Vec<u8>>)
    ensures
        bytes is Some == key_sequence(vk, app_cursor, mods.code()) is Some,
        bytes matches Some(b) ==> b@ == key_sequence(vk, app_cursor, mods.code())->0,
{
    let m: u8 = modifier_mask(mods);
    if let Some(f) = letter(vk) {
        if m != 0 {
            let mut out: Vec<u8> = csi(1);
            out.push(0x3b);
            text::push_decimal(&mut out, m as usize);
            out.push(f);
            proof {
                assert(out@ =~= key_sequence(vk, app_cursor, mods.code())->0);
            }
            return Some(out);
        }
        let intro: u8 = if app_cursor {
            0x4f
        } else {
            0x5b
        };
        let out: Vec<u8> = vec![0x1b, intro, f];
        proof {
            assert(out@ =~= key_sequence(vk, app_cursor, mods.code())->0);
        }
        return Some(out);
    }
    if let Some(n) = tilde(vk) {
        let mut out: Vec<u8> = csi(n);
        if m != 0 {
            out.push(0x3b);
            text::push_decimal(&mut out, m as usize);
        }
        out.push(0x7e);
        proof {
            assert(out@ =~= key_sequence(vk, app_cursor, mods.code())->0);
        }
        return Some(out);
    }
    if VK_F1 <= vk && vk <= VK_F1 + 3 {
        let f: u8 = 0x50 + (vk - VK_F1) as u8;
        let out: Vec<u8> = vec![0x1b, 0x4f, f];
        proof {
            assert(out@ =~= key_sequence(vk, app_cursor, mods.code())->0);
        }
        return Some(out);
    }
    if VK_F1 <= vk && vk <= VK_F12 {
        let n: u16 = if vk == VK_F1 + 4 {
            15
        } else if vk <= VK_F1 + 9 {
            vk - VK_F1 + 12
        } else {
            vk - VK_F1 + 13
        };
        let mut out: Vec<u8> = csi(n as usize);
        out.push(0x7e);
        return Some(out);
    }
    if vk == VK_BACK {
        let b: u8 = if mods.ctrl {
            0x08
        } else {
            0x7f
        };
        let out: Vec<u8> = vec![b];
        proof {
            assert(out@ =~= key_sequence(vk, app_cursor, mods.code())->0);
        }
        return Some(out);
    }
    None
}

/// The code tells every combination of modifiers from every other.
pub proof fn law_modifiers_told_apart(a: Modifiers, b: Modifiers)
    requires
        a.code() == b.code(),
    ensures
        a == b,
{
}

/// Application cursor keys change what the unmodified cursor keys, Home and End send, and nothing
/// else.
pub proof fn law_app_cursor_scope(vk: u16, m: nat)
    ensures
        key_sequence(vk, true, m) == key_sequence(vk, false, m) <==> !(letter_final(vk) is Some
            && m == 0),
{
    if letter_final(vk) is Some && m == 0 {
        assert(key_sequence(vk, true, m)->0[1] != key_sequence(vk, false, m)->0[1]);
    }
}

/// The key that sends `s`.
spec fn sender(s: Seq<u8>) -> u16 {
    let f = s.last();
    if s.len() == 1 {
        VK_BACK
    } else if f == 0x41 {
        VK_UP
    } else if f == 0x42 {
        VK_DOWN
    } else if f == 0x43 {
        VK_RIGHT
    } else if f == 0x44 {
        VK_LEFT
    } else if f == 0x48 {
        VK_HOME
    } else if f == 0x46 {
        VK_END
    } else if s[1] == 0x4f {
        (VK_F1 + (f - 0x50)) as u16
    } else if s[2] == 0x31 {
        if s[3] == 0x35 {
            (VK_F1 + 4) as u16
        } else {
            (VK_F1 + (s[3] - 0x32)) as u16
        }
    } else if s[2] == 0x32 && s[3] == 0x30 {
        (VK_F1 + 8) as u16
    } else if s[2] == 0x32 && s[3] == 0x31 {
        (VK_F1 + 9) as u16
    } else if s[2] == 0x32 && s[3] == 0x33 {
        (VK_F1 + 10) as u16
    } else if s[2] == 0x32 && s[3] == 0x34 {
        (VK_F1 + 11) as u16
    } else if s[2] == 0x32 {
        VK_INSERT
    } else if s[2] == 0x33 {
        VK_DELETE
    } else if s[2] == 0x35 {
        VK_PRIOR
    } else {
        VK_NEXT
    }
}

proof fn lemma_sender(vk: u16, app_cursor: bool, m: nat)
    requires
        m <= 8,
        key_sequence(vk, app_cursor, m) is Some,
    ensures
        sender(key_sequence(vk, app_cursor, m)->0) == vk,
{
    let s = key_sequence(vk, app_cursor, m)->0;
    if tilde_number(vk) is Some {
        assert(s[2] == 0x30 + tilde_number(vk)->0);
        assert(s[3] == 0x3b || s[3] == 0x7e);
        assert(s.last() == 0x7e);
    } else if VK_F1 + 4 <= vk <= VK_F12 {
        let n = function_number(vk);
        assert(text::decimal(n / 10) == seq![(0x30 + n / 10) as u8]);
        assert(text::decimal(n) == text::decimal(n / 10).push((0x30 + n % 10) as u8));
        assert(s[2] == 0x30 + n / 10);
        assert(s[3] == 0x30 + n % 10);
        assert(s.last() == 0x7e);
    } else if letter_final(vk) is Some {
        assert(s.last() == letter_final(vk)->0);
        assert(s.len() > 1);
    }
}

/// Under any one setting of the modifiers, no two keys send the same bytes.
pub proof fn law_keys_told_apart(a: u16, b: u16, app_cursor: bool, mods: Modifiers)
    requires
        key_sequence(a, app_cursor, mods.code()) is Some,
        key_sequence(a, app_cursor, mods.code()) == key_sequence(b, app_cursor, mods.code()),
    ensures
        a == b,
{
    lemma_sender(a, app_cursor, mods.code());
    lemma_sender(b, app_cursor, mods.code());
}

/// An ASCII character is typed as the byte it is; a Ctrl+letter code, the interrupt of Ctrl+C
/// among them, reaches the shell unchanged.
pub proof fn law_ascii_typed_as_is(code_unit: u16)
    requires
        code_unit < 0x80,
    ensures
        unit_bytes(code_unit) == seq![code_unit as u8],
{
    let c = code_unit as u32 as char;
    let chars = seq![c];
    assert(c as u32 == code_unit as u32);
    vstd::utf8::is_ascii_chars_encode_utf8(chars);
    assert(unit_bytes(code_unit) =~= seq![code_unit as u8]);
}

/// What the cursor keys, Home and End send: a letter of their own after `ESC [`, or after `ESC O`
/// where the program asked for application cursor keys; with modifiers held, their code goes before
/// the letter, and the program's wish no longer matters.
pub proof fn law_cursor_keys(m: nat, app_cursor: bool, vk: u16, letter: u8)
    requires
        ({
            ||| vk == VK_UP && letter == 0x41
            ||| vk == VK_DOWN && letter == 0x42
            ||| vk == VK_RIGHT && letter == 0x43
            ||| vk == VK_LEFT && letter == 0x44
            ||| vk == VK_HOME && letter == 0x48
            ||| vk == VK_END && letter == 0x46
        }),
    ensures
        key_sequence(vk, false, 0) == Some(seq![0x1bu8, 0x5b, letter]),
        key_sequence(vk, true, 0) == Some(seq![0x1bu8, 0x4f, letter]),
        m > 0 ==> key_sequence(vk, app_cursor, m) == Some(
            seq![0x1bu8, 0x5b, 0x31, 0x3b] + text::decimal(m) + seq![letter],
        ),
{
    if m > 0 {
        assert(key_sequence(vk, app_cursor, m)->0 =~= seq![0x1bu8, 0x5b, 0x31, 0x3b]
            + text::decimal(m) + seq![letter]);
    }
}

/// What the editing keys send: a digit of their own and a tilde after `ESC [`, with the code of the
/// modifiers held, if any, between them.
pub proof fn law_editing_keys(m: nat, app_cursor: bool, vk: u16, digit: u8)
    requires
        ({
            ||| vk == VK_INSERT && digit == 0x32
            ||| vk == VK_DELETE && digit == 0x33
            ||| vk == VK_PRIOR && digit == 0x35
            ||| vk == VK_NEXT && digit == 0x36
        }),
    ensures
        key_sequence(vk, app_cursor, 0) == Some(seq![0x1bu8, 0x5b, digit, 0x7e]),
        m > 0 ==> key_sequence(vk, app_cursor, m) == Some(
            seq![0x1bu8, 0x5b, digit, 0x3b] + text::decimal(m) + seq![0x7eu8],
        ),
{
    assert(key_sequence(vk, app_cursor, 0)->0 =~= seq![0x1bu8, 0x5b, digit, 0x7e]);
    if m > 0 {
        assert(key_sequence(vk, app_cursor, m)->0 =~= seq![0x1bu8, 0x5b, digit, 0x3b]
            + text::decimal(m) + seq![0x7eu8]);
    }
}

/// What the function keys send, whatever is held with them: F1 to F4 a letter from P on after
/// `ESC O`, the others a number of two digits and a tilde after `ESC [`. The numbers go up with
/// the keys from 15, and leave out 16 and 22.
pub proof fn law_function_keys(m: nat, app_cursor: bool, k: int)
    requires
        1 <= k <= 12,
    ensures
        ({
            let s = key_sequence((VK_F1 + k - 1) as u16, app_cursor, m);
            let n = if k == 5 {
                15
            } else if k <= 10 {
                k + 11
            } else {
                k + 12
            };
            &&& k <= 4 ==> s == Some(seq![0x1bu8, 0x4f, (0x4f + k) as u8])
            &&& k >= 5 ==> s == Some(
                seq![0x1bu8, 0x5b, (0x30 + n / 10) as u8, (0x30 + n % 10) as u8, 0x7e],
            )
        }),
{
    let vk = (VK_F1 + k - 1) as u16;
    let s = key_sequence(vk, app_cursor, m);
    if k >= 5 {
        let n = function_number(vk);
        assert(text::decimal(n / 10) == seq![(0x30 + n / 10) as u8]);
        assert(text::decimal(n) == text::decimal(n / 10).push((0x30 + n % 10) as u8));
        assert(s->0 =~= seq![0x1bu8, 0x5b, (0x30 + n / 10) as u8, (0x30 + n % 10) as u8, 0x7e]);
    } else {
        assert(s->0 =~= seq![0x1bu8, 0x4f, (0x4f + k) as u8]);
    }
}

/// Backspace sends DEL, or BS with Ctrl. Every key that is none of these sends nothing of its own.
pub proof fn law_other_keys(mods: Modifiers, app_cursor: bool, vk: u16)
    ensures
        key_sequence(VK_BACK, app_cursor, mods.code()) == Some(
            seq![
                if mods.ctrl {
                    0x08u8
                } else {
                    0x7fu8
                },
            ],
        ),
        key_sequence(vk, app_cursor, mods.code()) is Some <==> vk == VK_BACK || 0x21 <= vk <= 0x28
            || vk == VK_INSERT || vk == VK_DELETE || VK_F1 <= vk <= VK_F12,
{
}

/// The code of the modifiers held is one more than the sum of 1 for Shift, 2 for Alt and 4 for
/// Ctrl, and 0 where none is held.
pub proof fn law_modifier_code(mods: Modifiers)
    ensures
        ({
            let sum = (if mods.shift {
                1int
            } else {
                0
            }) + (if mods.alt {
                2int
            } else {
                0
            }) + (if mods.ctrl {
                4int
            } else {
                0
            });
            mods.code() == if sum == 0 {
                0
            } else {
                1 + sum
            }
        }),
{
}

/// What a code unit sends is text: the character it stands for, in UTF-8, and nothing for half a
/// pair.
pub proof fn law_typed_as_utf8(code_unit: u16)
    ensures
        ({
            let half = 0xd800 <= code_unit <= 0xdfff;
            &&& half ==> unit_bytes(code_unit).len() == 0
            &&& !half ==> vstd::utf8::valid_utf8(unit_bytes(code_unit)) && vstd::utf8::decode_utf8(
                unit_bytes(code_unit),
            ) == seq![code_unit as u32 as char]
        }),
{
    let chars = seq![code_unit as u32 as char];
    vstd::utf8::encode_utf8_valid_utf8(chars);
    vstd::utf8::encode_utf8_decode_utf8(chars);
}

/// The keys have the numbers that the window system gives them: Page Up, Page Down, End and Home
/// and the arrows, clockwise from the left, in a row, letters and control keys by their ASCII code,
/// and the function keys in a row.
pub proof fn law_key_numbers()
    ensures
        VK_PRIOR == 0x21 && VK_NEXT == 0x22 && VK_END == 0x23 && VK_HOME == 0x24,
        VK_LEFT == 0x25 && VK_UP == 0x26 && VK_RIGHT == 0x27 && VK_DOWN == 0x28,
        VK_INSERT == 0x2d && VK_DELETE == 0x2e,
        VK_C == 'C' as u16 && VK_T == 'T' as u16 && VK_V == 'V' as u16 && VK_W == 'W' as u16,
        VK_BACK == 0x08 && VK_TAB == 0x09 && VK_ESCAPE == 0x1b,
        VK_F12 == VK_F1 + 11 && VK_F1 == 0x70,
{
}

} // verus!
