//! Laws of colors, attributes and modes: what each code of a sequence sets and what it keeps, that
//! the codes of a sequence act one after the other, and what the palette looks like.

use vstd::prelude::*;

use crate::colors;
use crate::colors::{ANSI16, DEFAULT_BG, DEFAULT_FG};
use crate::grid::CursorStyle;
use crate::parser;
use crate::screen::GridView;

verus! {

// ---- attributes ----

/// The codes of `p` from `i` on are complete: no extended color lacks one of its parameters.
pub open spec fn complete_from(p: Seq<u16>, i: int) -> bool
    decreases p.len() - i,
{
    if i < 0 || i >= p.len() {
        i == p.len()
    } else if p[i] != 38 && p[i] != 48 {
        complete_from(p, i + 1)
    } else if i + 1 >= p.len() {
        false
    } else if p[i + 1] == 5 {
        i + 3 <= p.len() && complete_from(p, i + 3)
    } else if p[i + 1] == 2 {
        i + 5 <= p.len() && complete_from(p, i + 5)
    } else {
        complete_from(p, i + 1)
    }
}

/// The codes of two sequences, the first of them complete, act in one as they do one after the
/// other.
pub proof fn law_sgr_codes_act_in_order(g: GridView, p: Seq<u16>, q: Seq<u16>)
    requires
        p.len() > 0,
        q.len() > 0,
        complete_from(p, 0),
    ensures
        parser::sgr(g, p + q) == parser::sgr(parser::sgr(g, p), q),
{
    lemma_sgr_prefix(g, p, q, 0);
    lemma_sgr_suffix(parser::sgr(g, p), p, q, 0);
}

proof fn lemma_sgr_prefix(g: GridView, p: Seq<u16>, q: Seq<u16>, i: int)
    requires
        0 <= i <= p.len(),
        q.len() > 0,
        complete_from(p, i),
    ensures
        parser::sgr_from(g, p + q, i) == parser::sgr_from(
            parser::sgr_from(g, p, i),
            p + q,
            p.len() as int,
        ),
    decreases p.len() - i,
{
    if i < p.len() {
        let (next, used) = parser::sgr_one(g, p, i);
        assert(i + used <= p.len() && complete_from(p, i + used)) by {
            lemma_complete(p, i);
        }
        let pq = p + q;
        assert(forall|k: int| 0 <= k < p.len() ==> pq[k] == p[k]);
        assert(parser::sgr_one(g, pq, i) == (next, used));
        lemma_sgr_prefix(next, p, q, i + used);
    }
}

/// A complete sequence goes on complete after its first code.
proof fn lemma_complete(p: Seq<u16>, i: int)
    requires
        0 <= i < p.len(),
        complete_from(p, i),
    ensures
        ({
            let used: int = if p[i] != 38 && p[i] != 48 {
                1
            } else if p[i + 1] == 5 {
                3
            } else if p[i + 1] == 2 {
                5
            } else {
                1
            };
            i + used <= p.len() && complete_from(p, i + used)
        }),
{
}

proof fn lemma_sgr_suffix(g: GridView, p: Seq<u16>, q: Seq<u16>, j: int)
    requires
        0 <= j <= q.len(),
    ensures
        parser::sgr_from(g, p + q, p.len() + j) == parser::sgr_from(g, q, j),
    decreases q.len() - j,
{
    if j < q.len() {
        let pq = p + q;
        let (next, used) = parser::sgr_one(g, q, j);
        assert(forall|k: int| 0 <= k < q.len() ==> pq[p.len() + k] == q[k]);
        assert(parser::sgr_one(g, pq, p.len() + j) == (next, used));
        let to = crate::screen::min(j + used, q.len() as int);
        assert(crate::screen::min(p.len() + j + used, pq.len() as int) == p.len() + to);
        lemma_sgr_suffix(next, p, q, to);
    }
}

/// Whatever the attributes were and whatever a sequence set before, a 0 at its end brings back the
/// default colors and clears every flag. A sequence without codes does the same.
pub proof fn law_sgr_reset(g: GridView, p: Seq<u16>)
    requires
        complete_from(p, 0),
    ensures
        ({
            let r = parser::sgr(g, p.push(0));
            &&& r.fg == DEFAULT_FG
            &&& r.bg == DEFAULT_BG
            &&& r.flags == 0
        }),
        parser::sgr(g, seq![]) == (GridView { fg: DEFAULT_FG, bg: DEFAULT_BG, flags: 0, ..g }),
        parser::sgr(g, seq![0u16]) == (GridView { fg: DEFAULT_FG, bg: DEFAULT_BG, flags: 0, ..g }),
{
    reveal_with_fuel(parser::sgr_from, 2);
    let zero = seq![0u16];
    if p.len() == 0 {
        assert(p.push(0) =~= zero);
    } else {
        assert(p.push(0) =~= p + zero);
        law_sgr_codes_act_in_order(g, p, zero);
    }
}

/// What a single code sets. A color code sets the one color to that of the palette or to its
/// default, and keeps the other color and the flags; a flag code keeps both colors; an unknown code
/// keeps everything.
pub proof fn law_sgr_code(g: GridView, v: u16)
    requires
        v != 38,
        v != 48,
    ensures
        ({
            let r = parser::sgr(g, seq![v]);
            &&& 30 <= v <= 37 ==> r == (GridView { fg: ANSI16@[v - 30], ..g })
            &&& 90 <= v <= 97 ==> r == (GridView { fg: ANSI16@[v - 82], ..g })
            &&& v == 39 ==> r == (GridView { fg: DEFAULT_FG, ..g })
            &&& 40 <= v <= 47 ==> r == (GridView { bg: ANSI16@[v - 40], ..g })
            &&& 100 <= v <= 107 ==> r == (GridView { bg: ANSI16@[v - 92], ..g })
            &&& v == 49 ==> r == (GridView { bg: DEFAULT_BG, ..g })
            &&& v == 1 || v == 3 || v == 4 || v == 7 || v == 22 || v == 23 || v == 24 || v == 27
                ==> r == (GridView { flags: r.flags, ..g })
            &&& !(v == 0 || v == 1 || v == 3 || v == 4 || v == 7 || v == 22 || v == 23 || v == 24
                || v == 27 || 30 <= v <= 37 || 39 <= v <= 47 || v == 49 || 90 <= v <= 97 || 100 <= v
                <= 107) ==> r == g
        }),
{
    reveal_with_fuel(parser::sgr_from, 2);
}

/// Bold, italic, underline and reverse have a bit each, which their code sets, and which the code
/// that takes them back clears. Setting one twice is setting it once, and the order of two of them
/// does not matter.
#[verifier::rlimit(40)]
pub proof fn law_sgr_flag_bits(g: GridView, v: u16, w: u16)
    requires
        v == 1 || v == 3 || v == 4 || v == 7,
        w == 1 || w == 3 || w == 4 || w == 7,
    ensures
        ({
            let bit = if v == 1 {
                1u8
            } else if v == 3 {
                2u8
            } else if v == 4 {
                4u8
            } else {
                8u8
            };
            let off = if v == 1 {
                22u16
            } else if v == 3 {
                23u16
            } else if v == 4 {
                24u16
            } else {
                27u16
            };
            &&& parser::sgr(g, seq![v]).flags == g.flags | bit
            &&& parser::sgr(g, seq![off]).flags == g.flags & !bit
            &&& parser::sgr(parser::sgr(g, seq![v]), seq![v]) == parser::sgr(g, seq![v])
            &&& parser::sgr(parser::sgr(g, seq![v]), seq![w]) == parser::sgr(
                parser::sgr(g, seq![w]),
                seq![v],
            )
        }),
{
    reveal_with_fuel(parser::sgr_from, 2);
    let f = g.flags;
    assert((f | 1) | 1 == f | 1 && (f | 2) | 2 == f | 2 && (f | 4) | 4 == f | 4 && (f | 8) | 8 == f
        | 8) by (bit_vector);
    assert((f | 1) | 2 == (f | 2) | 1 && (f | 1) | 4 == (f | 4) | 1 && (f | 1) | 8 == (f | 8) | 1
        && (f | 2) | 4 == (f | 4) | 2 && (f | 2) | 8 == (f | 8) | 2 && (f | 4) | 8 == (f | 8) | 4)
        by (bit_vector);
}

/// An extended color sets the text color (38) or the background (48) and keeps the rest: a color
/// of the palette by its number, or one by its components, of which the low byte counts. One that
/// lacks parameters sets nothing.
pub proof fn law_sgr_extended_color(g: GridView, which: u16, n: u16, red: u16, green: u16, blue: u16)
    requires
        which == 38 || which == 48,
    ensures
        ({
            let of_palette = parser::sgr(g, seq![which, 5u16, n]);
            let direct = parser::sgr(g, seq![which, 2u16, red, green, blue]);
            let indexed = colors::palette(n as int % 256) as u32;
            let mixed = ((blue as int % 256) * 0x1_0000 + (green as int % 256) * 0x100 + red as int
                % 256) as u32;
            &&& which == 38 ==> of_palette == (GridView { fg: indexed, ..g })
            &&& which == 48 ==> of_palette == (GridView { bg: indexed, ..g })
            &&& which == 38 ==> direct == (GridView { fg: mixed, ..g })
            &&& which == 48 ==> direct == (GridView { bg: mixed, ..g })
            &&& parser::sgr(g, seq![which]) == g
            &&& parser::sgr(g, seq![which, 5u16]) == g
            &&& parser::sgr(g, seq![which, 2u16]) == g
            &&& parser::sgr(g, seq![which, 2u16, red]) == g
            &&& parser::sgr(g, seq![which, 2u16, red, green]) == g
        }),
{
    reveal_with_fuel(parser::sgr_from, 2);
}

// ---- the palette ----

/// The first 16 colors of the palette are the ANSI colors; the next 216 are a cube, of which each
/// of red, green and blue takes six levels, blue the fastest; the last 24 are grays in even steps.
#[verifier::rlimit(40)]
pub proof fn law_palette_layout(r: int, g: int, b: int, k: int)
    requires
        0 <= r < 6,
        0 <= g < 6,
        0 <= b < 6,
        0 <= k < 24,
    ensures
        ({
            let c = colors::palette(16 + 36 * r + 6 * g + b);
            let level = seq![0int, 95, 135, 175, 215, 255];
            &&& c % 0x100 == level[r]
            &&& c / 0x100 % 0x100 == level[g]
            &&& c / 0x1_0000 == level[b]
        }),
        ({
            let c = colors::palette(232 + k);
            &&& c % 0x100 == 8 + 10 * k
            &&& c / 0x100 % 0x100 == 8 + 10 * k
            &&& c / 0x1_0000 == 8 + 10 * k
        }),
        k < 16 ==> colors::palette(k) == ANSI16@[k] as int,
{
    let i = 36 * r + 6 * g + b;
    assert(i / 36 == r && i / 6 % 6 == g && i % 6 == b);
}

/// The number of an ANSI color tells its hue: 1 stands for red, 2 for green, 4 for blue. In each
/// color between black and white, a component that takes part is stronger than one that does not,
/// and the bright version of a color is another color.
pub proof fn law_ansi_hues(k: int)
    requires
        1 <= k <= 6,
    ensures
        ({
            let dim = ANSI16@[k] as int;
            let bright = ANSI16@[k + 8] as int;
            &&& hue_shows(dim, k)
            &&& hue_shows(bright, k)
            &&& dim != bright
        }),
{
}

/// The components of `c` that take part in hue `k` are stronger than those that do not.
pub open spec fn hue_shows(c: int, k: int) -> bool {
    let (r, g, b) = (c % 0x100, c / 0x100 % 0x100, c / 0x1_0000);
    let (has_r, has_g, has_b) = (k % 2 == 1, k / 2 % 2 == 1, k / 4 == 1);
    &&& has_r && !has_g ==> r > g
    &&& has_r && !has_b ==> r > b
    &&& has_g && !has_r ==> g > r
    &&& has_g && !has_b ==> g > b
    &&& has_b && !has_r ==> b > r
    &&& has_b && !has_g ==> b > g
}

// ---- modes ----

/// What each mode stands for: switching it sets that one thing and keeps all else. The modes of
/// the alternate screen enter and leave it, and an unknown mode does nothing.
pub proof fn law_mode_switches(g: GridView, m: u16, on: bool)
    ensures
        ({
            let r = parser::set_modes(g, seq![m], on);
            &&& m == 1 ==> r == (GridView { app_cursor: on, ..g })
            &&& m == 25 ==> r == (GridView { cursor_visible: on, ..g })
            &&& m == 1000 ==> r == (GridView { mouse_report: on, ..g })
            &&& m == 1006 ==> r == (GridView { mouse_sgr: on, ..g })
            &&& m == 2004 ==> r == (GridView { bracketed_paste: on, ..g })
            &&& (m == 1049 || m == 47 || m == 1047) && on ==> r == g.enter_alt() && r.on_alt
            &&& (m == 1049 || m == 47 || m == 1047) && !on ==> r == g.leave_alt() && !r.on_alt
            &&& !(m == 1 || m == 25 || m == 47 || m == 1000 || m == 1006 || m == 1047 || m == 1049
                || m == 2004) ==> r == g
        }),
{
    assert(seq![m].drop_last() =~= seq![]);
    reveal_with_fuel(parser::set_modes, 2);
}

/// The modes of a sequence are switched one after the other.
pub proof fn law_modes_switch_in_order(g: GridView, a: Seq<u16>, b: Seq<u16>, on: bool)
    ensures
        parser::set_modes(g, a + b, on) == parser::set_modes(parser::set_modes(g, a, on), b, on),
    decreases b.len(),
{
    if b.len() == 0 {
        assert(a + b =~= a);
    } else {
        law_modes_switch_in_order(g, a, b.drop_last(), on);
        assert((a + b).drop_last() =~= a + b.drop_last());
    }
}

/// The cursor styles come in pairs of numbers: block, underline, bar. Any other number is a block.
pub proof fn law_cursor_styles(v: u16)
    ensures
        v == 3 || v == 4 <==> parser::style_of(v) == CursorStyle::Underline,
        v == 5 || v == 6 <==> parser::style_of(v) == CursorStyle::Bar,
        v < 3 || v > 6 <==> parser::style_of(v) == CursorStyle::Block,
{
}

} // verus!
