//! Laws of the sequences that a program sends: which of the screen's operations each stands for,
//! what its parameters mean, and what it is answered.

use vstd::prelude::*;

use crate::parser;
use crate::parser::TermView;
use crate::print_laws;
use crate::screen::GridView;
use crate::sgr_laws;
use crate::text;
use crate::vt::EventView;

verus! {

/// The value of parameter `i`: the first of its subparameters, and 0 where it is missing.
pub open spec fn value(params: Seq<Seq<u16>>, i: int) -> int {
    if 0 <= i < params.len() && params[i].len() > 0 {
        params[i][0] as int
    } else {
        0
    }
}

/// The value of parameter `i` where a missing one, or 0, stands for `def`.
pub open spec fn amount(params: Seq<Seq<u16>>, i: int, def: int) -> int {
    if value(params, i) == 0 {
        def
    } else {
        value(params, i)
    }
}

/// The values of all parameters.
pub open spec fn values(params: Seq<Seq<u16>>) -> Seq<u16> {
    Seq::new(params.len(), |i: int| value(params, i) as u16)
}

/// `v`, or the nearest of the `n` places from 0 on.
pub open spec fn nearest(v: int, n: int) -> int {
    if v < 0 {
        0
    } else if v >= n {
        n - 1
    } else {
        v
    }
}

/// The screen after a control sequence without intermediates.
pub open spec fn after(t: TermView, params: Seq<Seq<u16>>, action: char) -> GridView {
    t.perform(EventView::Csi { params, intermediates: seq![], action }).grid
}

/// The cursor is at `(x, y)`, as near as the screen has it, and nothing else has changed.
pub open spec fn sent_to(g: GridView, r: GridView, x: int, y: int) -> bool {
    print_laws::only_moved(g, r) && r.cx == nearest(x, g.cols) && r.cy == nearest(y, g.rows)
}

/// How the parser's parameters are read.
proof fn lemma_values(params: Seq<Seq<u16>>)
    ensures
        parser::flat_views(params) == values(params),
        forall|i: int, def: int|
            0 <= i ==> #[trigger] parser::param(parser::flat_views(params), i, def) == amount(
                params,
                i,
                def,
            ),
        forall|def: u16|
            params.len() > 0 ==> #[trigger] parser::first_param(parser::flat_views(params), def)
                == value(params, 0),
        parser::first_param(parser::flat_views(params), 0) == value(params, 0),
{
    assert(parser::flat_views(params) =~= values(params));
}

/// The sequences that move the cursor: up, down, right and left by an amount, to the start of a
/// line further down or up, and to a column, a line, or both, counted from 1. A missing amount is
/// 1, and no sequence leaves the screen.
pub proof fn law_cursor_sequences(t: TermView, params: Seq<Seq<u16>>)
    requires
        t.grid.wf(),
    ensures
        ({
            let g = t.grid;
            let n = amount(params, 0, 1);
            let m = amount(params, 1, 1);
            &&& sent_to(g, after(t, params, 'A'), g.cx, g.cy - n)
            &&& sent_to(g, after(t, params, 'B'), g.cx, g.cy + n)
            &&& sent_to(g, after(t, params, 'e'), g.cx, g.cy + n)
            &&& sent_to(g, after(t, params, 'C'), g.cx + n, g.cy)
            &&& sent_to(g, after(t, params, 'a'), g.cx + n, g.cy)
            &&& sent_to(g, after(t, params, 'D'), g.cx - n, g.cy)
            &&& sent_to(g, after(t, params, 'E'), 0, g.cy + n)
            &&& sent_to(g, after(t, params, 'F'), 0, g.cy - n)
            &&& sent_to(g, after(t, params, 'G'), n - 1, g.cy)
            &&& sent_to(g, after(t, params, '`'), n - 1, g.cy)
            &&& sent_to(g, after(t, params, 'd'), g.cx, n - 1)
            &&& sent_to(g, after(t, params, 'H'), m - 1, n - 1)
            &&& sent_to(g, after(t, params, 'f'), m - 1, n - 1)
        }),
{
    lemma_values(params);
}

/// The sequences that edit the screen: erasing by a mode, and inserting, deleting, erasing and
/// scrolling by an amount. A missing mode is 0, and a missing amount 1.
pub proof fn law_edit_sequences(t: TermView, params: Seq<Seq<u16>>)
    ensures
        ({
            let g = t.grid;
            let n = amount(params, 0, 1);
            let mode = value(params, 0) as u16;
            &&& after(t, params, 'J') == g.erase_display(mode)
            &&& after(t, params, 'K') == g.erase_line(mode)
            &&& after(t, params, 'L') == g.insert_lines(n)
            &&& after(t, params, 'M') == g.delete_lines(n)
            &&& after(t, params, '@') == g.insert_chars(n)
            &&& after(t, params, 'P') == g.delete_chars(n)
            &&& after(t, params, 'X') == g.erase_chars(n)
            &&& after(t, params, 'S') == g.scroll_up(g.top, g.bot, n, false)
            &&& after(t, params, 'T') == g.scroll_down(g.top, g.bot, n)
        }),
{
    lemma_values(params);
}

/// The other sequences: the scroll region by its first and last line, counted from 1, where missing
/// ones stand for those of the screen; the saved cursor; the attributes; and the modes, with or
/// without a `?`.
pub proof fn law_state_sequences(t: TermView, params: Seq<Seq<u16>>)
    ensures
        ({
            let g = t.grid;
            let marked = |action: char|
                t.perform(EventView::Csi { params, intermediates: seq![0x3fu8], action }).grid;
            &&& after(t, params, 'r') == g.set_scroll_region(
                amount(params, 0, 1) - 1,
                amount(params, 1, g.rows) - 1,
            )
            &&& after(t, params, 's') == g.save_cursor()
            &&& after(t, params, 'u') == g.restore_cursor()
            &&& after(t, params, 'm') == parser::sgr(g, values(params))
            &&& after(t, params, 'h') == parser::set_modes(g, values(params), true)
            &&& after(t, params, 'l') == parser::set_modes(g, values(params), false)
            &&& marked('h') == after(t, params, 'h')
            &&& marked('l') == after(t, params, 'l')
        }),
{
    lemma_values(params);
}

/// The cursor style is set by a number, and nothing else is: 3 and 4 make it an underline, 5 and 6
/// a bar, and any other number, or none, a block.
pub proof fn law_style_sequence(t: TermView, params: Seq<Seq<u16>>)
    ensures
        ({
            let r = t.perform(
                EventView::Csi { params, intermediates: seq![0x20u8], action: 'q' },
            ).grid;
            &&& r == (GridView { cursor_style: r.cursor_style, ..t.grid })
            &&& value(params, 0) == 3 || value(params, 0) == 4 <==> r.cursor_style is Underline
            &&& value(params, 0) == 5 || value(params, 0) == 6 <==> r.cursor_style is Bar
        }),
{
    lemma_values(params);
    sgr_laws::law_cursor_styles(value(params, 0) as u16);
    sgr_laws::law_cursor_styles(1);
}

/// The screen after an escape sequence without intermediates.
pub open spec fn escaped(t: TermView, byte: u8) -> GridView {
    t.perform(EventView::Esc { intermediates: seq![], byte }).grid
}

/// The escape sequences: save and restore the cursor, line feed, reverse line feed, and reset.
pub proof fn law_escapes(t: TermView)
    ensures
        escaped(t, 0x37) == t.grid.save_cursor(),
        escaped(t, 0x38) == t.grid.restore_cursor(),
        escaped(t, 0x44) == t.grid.line_feed(),
        escaped(t, 0x4d) == t.grid.reverse_line_feed(),
        escaped(t, 0x63) == t.grid.full_reset(),
{
}

/// A new line is a line feed that ends at the start of the line.
pub proof fn law_new_line_escape(t: TermView)
    ensures
        escaped(t, 0x45) == (GridView { cx: 0, ..t.grid.line_feed() }),
{
}

/// The control characters: backspace, tab, line feed, which vertical tab and form feed are too, and
/// carriage return.
pub proof fn law_controls(t: TermView)
    ensures
        t.perform(EventView::Execute(0x08)).grid == t.grid.backspace(),
        t.perform(EventView::Execute(0x09)).grid == t.grid.tab(),
        t.perform(EventView::Execute(0x0a)).grid == t.grid.line_feed(),
        t.perform(EventView::Execute(0x0b)).grid == t.grid.line_feed(),
        t.perform(EventView::Execute(0x0c)).grid == t.grid.line_feed(),
        t.perform(EventView::Execute(0x0d)).grid == t.grid.carriage_return(),
{
}

/// Text is printed, and drawing changes neither the title nor the replies that are due.
pub proof fn law_text_is_printed(t: TermView, ch: char, byte: u8, intermediates: Seq<u8>)
    ensures
        t.perform(EventView::Print(ch)) == (TermView { grid: t.grid.put(ch), ..t }),
        ({
            let r = t.perform(EventView::Execute(byte));
            r == (TermView { grid: r.grid, ..t })
        }),
        ({
            let r = t.perform(EventView::Esc { intermediates, byte });
            r == (TermView { grid: r.grid, ..t })
        }),
{
}

/// The queries that are answered, and what with: a status query by "ok", a position query by the
/// line and column of the cursor, counted from 1, and a query for attributes by those of a VT100
/// with advanced video. A control sequence that asks nothing is answered nothing.
pub proof fn law_replies(t: TermView, params: Seq<Seq<u16>>, action: char)
    requires
        t.grid.wf(),
    ensures
        ({
            let r = t.perform(EventView::Csi { params, intermediates: seq![], action });
            let ask = value(params, 0);
            let reply = r.responses.skip(t.responses.len() as int);
            let line = text::decimal((t.grid.cy + 1) as nat);
            let column = text::decimal((t.grid.cx + 1) as nat);
            &&& r == (TermView { grid: r.grid, responses: t.responses + reply, ..t })
            &&& action == 'n' && ask == 5 ==> reply == seq![0x1bu8, 0x5b, 0x30, 0x6e]
            &&& action == 'n' && ask == 6 ==> reply == seq![0x1bu8, 0x5b] + line + seq![0x3bu8]
                + column + seq![0x52u8]
            &&& action == 'c' ==> reply == seq![0x1bu8, 0x5b, 0x3f, 0x31, 0x3b, 0x32, 0x63]
            &&& !(action == 'c' || (action == 'n' && (ask == 5 || ask == 6))) ==> reply.len() == 0
        }),
{
    lemma_values(params);
    let p = parser::flat_views(params);
    let none = Seq::<u8>::empty();
    let r = t.perform(EventView::Csi { params, intermediates: seq![], action });
    let asked = parser::csi_reply(t.grid, p, seq![], action);
    assert(r.responses.skip(t.responses.len() as int) =~= asked);
    assert(t.responses + none =~= t.responses);
}

/// The title is what a title command says, as text, and nothing else changes.
pub proof fn law_title_command(t: TermView, fields: Seq<Seq<u8>>)
    requires
        fields.len() >= 2,
        fields[0].len() == 1,
        fields[0][0] == 0x30 || fields[0][0] == 0x32,
    ensures
        t.perform(EventView::Osc(fields)) == (TermView {
            title: text::utf8_lossy(fields[1]),
            ..t
        }),
{
    assert(fields[0] =~= seq![fields[0][0]]);
}

/// Events are acted on one after the other, each on what the ones before it have left.
#[verifier::rlimit(40)]
pub proof fn law_events_act_in_order(t: TermView, a: Seq<EventView>, b: Seq<EventView>)
    ensures
        t.perform_all(a + b) == t.perform_all(a).perform_all(b),
    decreases b.len(),
{
    if b.len() == 0 {
        assert(a + b =~= a);
    } else {
        law_events_act_in_order(t, a, b.drop_last());
        assert((a + b).drop_last() =~= a + b.drop_last());
        assert((a + b).last() == b.last());
    }
}

/// A single event is acted on once.
pub proof fn law_single_event(t: TermView, e: EventView)
    ensures
        t.perform_all(seq![e]) == t.perform(e),
{
    assert(seq![e].drop_last() =~= seq![]);
    assert(t.perform_all(seq![]) == t);
    assert(seq![e].last() == e);
}

} // verus!
