//! UTF-16, as the window system's strings are written: encoding, NUL-terminated strings, and
//! decoding with a replacement for what is no text.

use vstd::prelude::*;

use crate::text;

verus! {

/// The character of a code point, if the code point has one.
pub assume_specification[ char::from_u32 ](i: u32) -> (c: Option<char>)
    ensures
        c is Some <==> i < 0xd800 || 0xe000 <= i <= 0x10ffff,
        c matches Some(ch) ==> ch as u32 == i,
;

/// Stands for a code unit that is part of no character.
pub const REPLACEMENT: char = '\u{fffd}';

/// The first unit of a pair.
pub open spec fn is_high(u: u16) -> bool {
    0xd800 <= u < 0xdc00
}

/// The second unit of a pair.
pub open spec fn is_low(u: u16) -> bool {
    0xdc00 <= u < 0xe000
}

/// The character that a pair of units stands for.
pub open spec fn pair(high: u16, low: u16) -> char {
    (0x10000 + (high - 0xd800) * 0x400 + (low - 0xdc00)) as u32 as char
}

/// The one or two code units of a character.
pub open spec fn units(c: char) -> Seq<u16> {
    let u = c as u32;
    if u < 0x10000 {
        seq![u as u16]
    } else {
        seq![(0xd800 + (u - 0x10000) / 0x400) as u16, (0xdc00 + (u - 0x10000) % 0x400) as u16]
    }
}

/// The code units of `s`.
pub open spec fn encode(s: Seq<char>) -> Seq<u16>
    decreases s.len(),
{
    if s.len() == 0 {
        seq![]
    } else {
        encode(s.drop_last()) + units(s.last())
    }
}

/// The characters of `u`, with a replacement for each unit that is half of no pair.
pub open spec fn decode(u: Seq<u16>) -> Seq<char>
    decreases u.len(),
{
    if u.len() == 0 {
        seq![]
    } else if u.len() > 1 && is_high(u[0]) && is_low(u[1]) {
        seq![pair(u[0], u[1])] + decode(u.skip(2))
    } else if is_high(u[0]) || is_low(u[0]) {
        seq![REPLACEMENT] + decode(u.skip(1))
    } else {
        seq![u[0] as u32 as char] + decode(u.skip(1))
    }
}

/// Append the code units of `c`.
fn push_units(out: &mut Vec<u16>, c: char)
    ensures
        final(out)@ == old(out)@ + units(c),
{
    let u: u32 = c as u32;
    if u < 0x10000 {
        out.push(u as u16);
    } else {
        let v: u32 = u - 0x10000;
        out.push((0xd800 + v / 0x400) as u16);
        out.push((0xdc00 + v % 0x400) as u16);
    }
    proof {
        assert(out@ =~= old(out)@ + units(c));
    }
}

/// The code units of `s`.
pub fn encode_utf16(s: &str) -> (u: Vec<u16>)
    ensures
        u@ == encode(s@),
{
    let chars: Vec<char> = text::chars_of(s);
    let mut u: Vec<u16> = Vec::new();
    let mut i: usize = 0;
    proof {
        assert(chars@.take(0) =~= Seq::<char>::empty());
    }
    while i < chars.len()
        invariant
            i <= chars@.len(),
            u@ == encode(chars@.take(i as int)),
        decreases chars@.len() - i,
    {
        push_units(&mut u, chars[i]);
        proof {
            assert(chars@.take(i + 1).drop_last() =~= chars@.take(i as int));
            assert(chars@.take(i + 1).last() == chars@[i as int]);
        }
        i = i + 1;
    }
    proof {
        assert(chars@.take(i as int) =~= chars@);
    }
    u
}

/// The code units of `s` with a terminating NUL.
pub fn wide(s: &str) -> (u: Vec<u16>)
    ensures
        u@ == encode(s@).push(0),
{
    let mut u: Vec<u16> = encode_utf16(s);
    u.push(0);
    u
}

/// The string of `u`, with a replacement for each unit that is half of no pair.
pub fn decode_utf16(u: &Vec<u16>) -> (s: String)
    ensures
        s@ == decode(u@),
{
    let mut s: String = String::new();
    let mut i: usize = 0;
    proof {
        assert(u@.skip(0) =~= u@);
        assert(s@ + decode(u@) =~= decode(u@));
    }
    while i < u.len()
        invariant
            i <= u@.len(),
            s@ + decode(u@.skip(i as int)) == decode(u@),
        decreases u@.len() - i,
    {
        let a: u16 = u[i];
        let ghost rest = u@.skip(i as int);
        let ghost s0 = s@;
        let paired: bool = i + 1 < u.len() && 0xd800 <= a && a < 0xdc00 && 0xdc00 <= u[i + 1] && u[
            i + 1] < 0xe000;
        let code: u32 = if paired {
            0x10000 + (a as u32 - 0xd800) * 0x400 + (u[i + 1] as u32 - 0xdc00)
        } else {
            a as u32
        };
        let c: char = match char::from_u32(code) {
            Some(c) => c,
            None => REPLACEMENT,
        };
        s.push(c);
        proof {
            if c as u32 == code {
                vstd::utf8::char_u32_cast(c, code);
            }
            assert(rest.skip(1) =~= u@.skip(i + 1));
            if paired {
                assert(rest.skip(2) =~= u@.skip(i + 2));
                assert(s@ + decode(u@.skip(i + 2)) =~= s0 + decode(rest));
            } else {
                assert(s@ + decode(u@.skip(i + 1)) =~= s0 + decode(rest));
            }
        }
        i = if paired {
            i + 2
        } else {
            i + 1
        };
    }
    proof {
        assert(u@.skip(i as int) =~= Seq::<u16>::empty());
        assert(s@ + decode(u@.skip(i as int)) =~= s@);
    }
    s
}

proof fn lemma_encode_first(s: Seq<char>)
    requires
        s.len() > 0,
    ensures
        encode(s) == units(s[0]) + encode(s.skip(1)),
    decreases s.len(),
{
    if s.len() == 1 {
        assert(s.drop_last() =~= Seq::<char>::empty());
        assert(s.skip(1) =~= Seq::<char>::empty());
        assert(encode(s) =~= units(s[0]) + encode(s.skip(1)));
    } else {
        lemma_encode_first(s.drop_last());
        assert(s.drop_last().skip(1) =~= s.skip(1).drop_last());
        assert(encode(s) =~= units(s[0]) + encode(s.skip(1)));
    }
}

/// Decoding gives back the string that was encoded.
pub proof fn law_decode_encode(s: Seq<char>)
    ensures
        decode(encode(s)) == s,
    decreases s.len(),
{
    if s.len() > 0 {
        let rest = s.skip(1);
        law_decode_encode(rest);
        lemma_encode_first(s);
        let u = encode(s);
        let c = s[0];
        vstd::utf8::char_is_scalar(c);
        vstd::utf8::char_u32_cast(c, c as u32);
        if (c as u32) < 0x10000 {
            assert(u.skip(1) =~= encode(rest));
            assert(u[0] as u32 == c as u32);
        } else {
            assert(u.skip(2) =~= encode(rest));
            assert(is_high(u[0]) && is_low(u[1]));
            assert(pair(u[0], u[1]) == c);
        }
        assert(decode(u) =~= s);
    }
}

/// A string without NUL has no NUL unit before its terminator, so that a reader who stops at the
/// first one gets all of it.
pub proof fn law_nul_ends_string(s: Seq<char>)
    requires
        !s.contains('\0'),
    ensures
        !encode(s).contains(0),
    decreases s.len(),
{
    if s.len() > 0 {
        let init = s.drop_last();
        assert(s.contains(s.last()));
        assert forall|i: int| 0 <= i < init.len() implies init[i] != '\0' by {
            assert(s.contains(s[i]));
        }
        law_nul_ends_string(init);
        let c = s.last();
        vstd::utf8::char_is_scalar(c);
        vstd::utf8::char_u32_cast(c, c as u32);
        assert(c as u32 != 0);
        assert(forall|i: int| 0 <= i < units(c).len() ==> units(c)[i] != 0);
        assert forall|i: int| 0 <= i < encode(s).len() implies encode(s)[i] != 0 by {
            if i < encode(init).len() {
                assert(encode(init).contains(encode(init)[i]));
            }
        }
    }
}

/// A character of the basic plane is its own code unit; another one is a pair, a high half and a
/// low half of ten bits each.
pub proof fn law_units_of_character(c: char)
    ensures
        ({
            let (u, s) = (c as u32 as int, units(c));
            &&& u < 0x10000 ==> s.len() == 1 && s[0] as int == u
            &&& u >= 0x10000 ==> {
                &&& s.len() == 2
                &&& 0xd800 <= s[0] <= 0xdbff
                &&& 0xdc00 <= s[1] <= 0xdfff
                &&& u == 0x10000 + (s[0] - 0xd800) * 1024 + (s[1] - 0xdc00)
            }
        }),
{
    vstd::utf8::char_is_scalar(c);
    vstd::utf8::char_u32_cast(c, c as u32);
}

/// A text is encoded character by character.
pub proof fn law_encode_piecewise(a: Seq<char>, b: Seq<char>, c: char)
    ensures
        encode(a + b) == encode(a) + encode(b),
        encode(seq![c]) == units(c),
    decreases b.len(),
{
    assert(seq![c].drop_last() =~= Seq::<char>::empty());
    assert(encode(Seq::<char>::empty()) == Seq::<u16>::empty());
    assert(encode(seq![c]) =~= units(c));
    if b.len() == 0 {
        assert(a + b =~= a);
        assert(encode(a) + encode(b) =~= encode(a));
    } else {
        law_encode_piecewise(a, b.drop_last(), c);
        assert((a + b).drop_last() =~= a + b.drop_last());
        assert(encode(a + b) =~= encode(a) + encode(b));
    }
}

/// A unit that is half of no pair decodes to a replacement character, and what follows it is
/// decoded all the same.
pub proof fn law_lone_half_is_replaced(u: Seq<u16>)
    requires
        u.len() > 0,
        0xd800 <= u[0] <= 0xdfff,
        !(u[0] <= 0xdbff && u.len() > 1 && 0xdc00 <= u[1] <= 0xdfff),
    ensures
        decode(u) == seq!['\u{fffd}'] + decode(u.skip(1)),
{
}

} // verus!
