//! Laws of the terminal: what every event keeps, and what a stream of output means.

use vstd::prelude::*;

use crate::grid::{FLAG_BOLD, FLAG_ITALIC, FLAG_REVERSE, FLAG_UNDERLINE};
use crate::parser;
use crate::parser::TermView;
use crate::screen;
use crate::screen::GridView;
use crate::vt;
use crate::vt::EventView;

verus! {

// ---- every event keeps the screen a screen ----

proof fn lemma_scroll_up_wf(g: GridView, top: int, bot: int, n: int, capture: bool)
    requires
        g.wf(),
        0 <= top <= bot < g.rows,
    ensures
        g.scroll_up(top, bot, n, capture).wf(),
{
    let r = g.scroll_up(top, bot, n, capture);
    let k = screen::min(n, bot - top + 1);
    if k > 0 && g.captures(top, bot, capture) {
        let all = g.scrollback + g.lines().subrange(0, k);
        assert forall|i: int| 0 <= i < r.scrollback.len() implies 1 <= (
        #[trigger] r.scrollback[i]).len() by {
            let j = i + (all.len() - r.scrollback.len());
            assert(r.scrollback[i] == all[j]);
            if j < g.scrollback.len() {
                assert(all[j] == g.scrollback[j]);
            } else {
                assert(all[j] == g.lines()[j - g.scrollback.len()]);
            }
        }
    }
}

proof fn lemma_scroll_down_wf(g: GridView, top: int, bot: int, n: int)
    requires
        g.wf(),
        0 <= top <= bot < g.rows,
    ensures
        g.scroll_down(top, bot, n).wf(),
{
}

proof fn lemma_line_feed_wf(g: GridView)
    requires
        g.wf(),
    ensures
        g.line_feed().wf(),
{
    lemma_scroll_up_wf(GridView { wrap_pending: false, ..g }, g.top, g.bot, 1, true);
}

pub(crate) proof fn lemma_put_wf(g: GridView, ch: char)
    requires
        g.wf(),
    ensures
        g.put(ch).wf(),
{
    lemma_line_feed_wf(GridView { cx: 0, ..g });
    let w = g.carry_wrap();
    assert(w.wf());
    assert(w.write_cell(crate::grid::Cell { ch, fg: w.fg, bg: w.bg, flags: w.flags }).wf());
}

proof fn lemma_modes_wf(g: GridView, modes: Seq<u16>, on: bool)
    requires
        g.wf(),
    ensures
        parser::set_modes(g, modes, on).wf(),
    decreases modes.len(),
{
    if modes.len() > 0 {
        lemma_modes_wf(g, modes.drop_last(), on);
        let h = parser::set_modes(g, modes.drop_last(), on);
        assert(h.enter_alt().wf());
        assert(h.leave_alt().wf());
    }
}

/// SGR changes colors and flags, nothing else.
pub proof fn law_sgr_changes_attributes_only(g: GridView, p: Seq<u16>)
    ensures
        parser::sgr(g, p) == (GridView {
            fg: parser::sgr(g, p).fg,
            bg: parser::sgr(g, p).bg,
            flags: parser::sgr(g, p).flags,
            ..g
        }),
{
    lemma_sgr_from_frame(g, p, 0);
}

proof fn lemma_sgr_one_frame(g: GridView, p: Seq<u16>, i: int)
    ensures
        parser::sgr_one(g, p, i).0 == (GridView {
            fg: parser::sgr_one(g, p, i).0.fg,
            bg: parser::sgr_one(g, p, i).0.bg,
            flags: parser::sgr_one(g, p, i).0.flags,
            ..g
        }),
{
}

proof fn lemma_sgr_from_frame(g: GridView, p: Seq<u16>, i: int)
    ensures
        parser::sgr_from(g, p, i) == (GridView {
            fg: parser::sgr_from(g, p, i).fg,
            bg: parser::sgr_from(g, p, i).bg,
            flags: parser::sgr_from(g, p, i).flags,
            ..g
        }),
    decreases p.len() - i,
{
    if 0 <= i < p.len() {
        let (next, used) = parser::sgr_one(g, p, i);
        lemma_sgr_one_frame(g, p, i);
        lemma_sgr_from_frame(next, p, screen::min(i + used, p.len() as int));
    }
}

proof fn lemma_csi_cursor_wf(g: GridView, p: Seq<u16>, action: char)
    requires
        g.wf(),
    ensures
        parser::csi_cursor_grid(g, p, action).wf(),
{
    let n = parser::param(p, 0, 1);
    assert(g.move_cursor(0, -n).wf());
    assert(g.move_cursor(0, n).wf());
    assert(g.move_cursor(n, 0).wf());
    assert(g.move_cursor(-n, 0).wf());
}

proof fn lemma_erase_wf(g: GridView, erased: spec_fn(int, int) -> bool)
    requires
        g.wf(),
    ensures
        g.erase_where(erased).wf(),
{
}

proof fn lemma_insert_delete_wf(g: GridView, n: int)
    requires
        g.wf(),
        0 <= n,
    ensures
        g.insert_chars(n).wf(),
        g.delete_chars(n).wf(),
{
}

proof fn lemma_csi_edit_wf(g: GridView, p: Seq<u16>, action: char)
    requires
        g.wf(),
    ensures
        parser::csi_edit_grid(g, p, action).wf(),
{
    let n = parser::param(p, 0, 1);
    let mode = parser::first_param(p, 0);
    if action == 'J' {
        lemma_erase_wf(g, |x: int, y: int| screen::reading_le(g.cy, g.cx, y, x));
        lemma_erase_wf(g, |x: int, y: int| screen::reading_le(y, x, g.cy, g.cx));
        lemma_erase_wf(g, |x: int, y: int| true);
        assert(g.erase_display(mode).wf());
    } else if action == 'K' {
        lemma_erase_wf(g, |x: int, y: int| y == g.cy && g.cx <= x);
        lemma_erase_wf(g, |x: int, y: int| y == g.cy && x <= g.cx);
        lemma_erase_wf(g, |x: int, y: int| y == g.cy);
        assert(g.erase_line(mode).wf());
    } else if action == 'L' || action == 'M' {
        if g.cursor_in_region() {
            lemma_scroll_up_wf(g, g.cy, g.bot, n, false);
            lemma_scroll_down_wf(g, g.cy, g.bot, n);
        }
    } else if action == '@' || action == 'P' {
        lemma_insert_delete_wf(g, n);
    } else if action == 'X' {
        lemma_erase_wf(g, |x: int, y: int| y == g.cy && g.cx <= x < g.cx + n);
    } else {
        lemma_scroll_up_wf(g, g.top, g.bot, n, false);
        lemma_scroll_down_wf(g, g.top, g.bot, n);
    }
}

proof fn lemma_csi_state_wf(g: GridView, p: Seq<u16>, action: char)
    requires
        g.wf(),
    ensures
        parser::csi_state_grid(g, p, action).wf(),
{
    if action == 'h' || action == 'l' {
        lemma_modes_wf(g, p, action == 'h');
    } else if action == 'm' {
        law_sgr_changes_attributes_only(g, p);
    }
}

proof fn lemma_csi_marked_wf(g: GridView, p: Seq<u16>, intermediates: Seq<u8>, action: char)
    requires
        g.wf(),
    ensures
        parser::csi_marked_grid(g, p, intermediates, action).wf(),
{
    lemma_modes_wf(g, p, true);
    lemma_modes_wf(g, p, false);
}

proof fn lemma_execute_wf(g: GridView, b: u8)
    requires
        g.wf(),
    ensures
        parser::execute_grid(g, b).wf(),
{
    lemma_line_feed_wf(g);
    assert(g.tab().wf());
}

proof fn lemma_esc_wf(g: GridView, intermediates: Seq<u8>, b: u8)
    requires
        g.wf(),
    ensures
        parser::esc_grid(g, intermediates, b).wf(),
{
    if b == 0x44 || b == 0x45 {
        lemma_line_feed_wf(g);
    } else if b == 0x4d {
        lemma_scroll_down_wf(GridView { wrap_pending: false, ..g }, g.top, g.bot, 1);
    } else if b == 0x63 {
        assert(g.full_reset().wf());
    }
}

/// Whatever the stream holds, the screen stays one: cursor and region on it, the
/// history within its capacity, the view within the history.
pub proof fn law_events_keep_screen(t: TermView, e: EventView)
    requires
        t.grid.wf(),
    ensures
        t.perform(e).grid.wf(),
{
    match e {
        EventView::Print(c) => lemma_put_wf(t.grid, c),
        EventView::Execute(b) => lemma_execute_wf(t.grid, b),
        EventView::Csi { params, intermediates, action } => {
            let p = parser::flat_views(params);
            lemma_csi_cursor_wf(t.grid, p, action);
            lemma_csi_edit_wf(t.grid, p, action);
            lemma_csi_state_wf(t.grid, p, action);
            lemma_csi_marked_wf(t.grid, p, intermediates, action);
        },
        EventView::Esc { intermediates, byte } => lemma_esc_wf(t.grid, intermediates, byte),
        EventView::Osc(_) => {},
    }
}

// ---- what events leave alone ----

/// `after` is the history `before` with lines joined to it and its `dropped` oldest lines gone,
/// which it only loses when it is full.
pub open spec fn grows(
    before: Seq<Seq<crate::grid::Cell>>,
    after: Seq<Seq<crate::grid::Cell>>,
    dropped: int,
    capacity: int,
) -> bool {
    &&& 0 <= dropped
    &&& before.len() <= after.len() <= capacity
    &&& dropped > 0 ==> after.len() == capacity
    &&& forall|i: int|
        dropped <= i < before.len() ==> after[i - dropped] == #[trigger] before[i]
}

/// `after` is the history `before` with lines joined to it.
#[verifier::opaque]
pub open spec fn carries_on(
    before: Seq<Seq<crate::grid::Cell>>,
    after: Seq<Seq<crate::grid::Cell>>,
    capacity: int,
) -> bool {
    exists|dropped: int| grows(before, after, dropped, capacity)
}

/// What every event keeps: size, capacity and selection. A view into the history
/// either stays where it is, over a history that only grows, or goes back to the
/// bottom.
pub open spec fn keeps(g: GridView, h: GridView) -> bool {
    &&& h.cols == g.cols
    &&& h.rows == g.rows
    &&& h.max_scrollback == g.max_scrollback
    &&& h.selection == g.selection
    &&& h.view_offset == g.view_offset || h.view_offset == 0
    &&& h.view_offset > 0 ==> carries_on(g.scrollback, h.scrollback, g.max_scrollback)
}

/// The primary screen, its cursor and the history are as they were.
pub open spec fn primary_kept(g: GridView, h: GridView) -> bool {
    &&& h.primary == g.primary
    &&& h.scrollback == g.scrollback
    &&& h.primary_cursor == g.primary_cursor
}

/// The same history is one that loses nothing.
proof fn lemma_grows_refl(g: GridView)
    requires
        g.wf(),
    ensures
        carries_on(g.scrollback, g.scrollback, g.max_scrollback),
{
    reveal(carries_on);
    assert(grows(g.scrollback, g.scrollback, 0, g.max_scrollback));
}

proof fn lemma_scroll_up_keeps(g: GridView, top: int, bot: int, n: int, capture: bool)
    requires
        g.wf(),
        0 <= top <= bot < g.rows,
    ensures
        keeps(g, g.scroll_up(top, bot, n, capture)),
        g.scroll_up(top, bot, n, capture).on_alt == g.on_alt,
        g.on_alt ==> primary_kept(g, g.scroll_up(top, bot, n, capture)),
{
    lemma_grows_refl(g);
    let k = screen::min(n, bot - top + 1);
    let r = g.scroll_up(top, bot, n, capture);
    if k > 0 && g.captures(top, bot, capture) {
        let all = g.scrollback + g.lines().subrange(0, k);
        let dropped = all.len() - r.scrollback.len();
        assert forall|i: int| dropped <= i < g.scrollback.len() implies r.scrollback[i - dropped]
            == #[trigger] g.scrollback[i] by {
            assert(all[i] == g.scrollback[i]);
        }
        reveal(carries_on);
        assert(grows(g.scrollback, r.scrollback, dropped, g.max_scrollback));
    }
}

proof fn lemma_scroll_down_keeps(g: GridView, top: int, bot: int, n: int)
    requires
        g.wf(),
    ensures
        keeps(g, g.scroll_down(top, bot, n)),
        g.scroll_down(top, bot, n).on_alt == g.on_alt,
        g.on_alt ==> primary_kept(g, g.scroll_down(top, bot, n)),
{
    lemma_grows_refl(g);
}

proof fn lemma_line_feed_keeps(g: GridView)
    requires
        g.wf(),
    ensures
        keeps(g, g.line_feed()),
        g.line_feed().on_alt == g.on_alt,
        g.on_alt ==> primary_kept(g, g.line_feed()),
{
    lemma_grows_refl(g);
    lemma_scroll_up_keeps(GridView { wrap_pending: false, ..g }, g.top, g.bot, 1, true);
}

proof fn lemma_put_keeps(g: GridView, ch: char)
    requires
        g.wf(),
    ensures
        keeps(g, g.put(ch)),
        g.on_alt ==> primary_kept(g, g.put(ch)),
{
    lemma_grows_refl(g);
    lemma_line_feed_keeps(GridView { cx: 0, ..g });
    let w = g.carry_wrap();
    assert(keeps(g, w) && w.on_alt == g.on_alt && (g.on_alt ==> primary_kept(g, w)));
}

proof fn lemma_modes_keep(g: GridView, modes: Seq<u16>, on: bool)
    requires
        g.wf(),
    ensures
        keeps(g, parser::set_modes(g, modes, on)),
        g.on_alt ==> primary_kept(g, parser::set_modes(g, modes, on)),
        g.on_alt && on ==> parser::set_modes(g, modes, on).on_alt,
    decreases modes.len(),
{
    lemma_grows_refl(g);
    if modes.len() > 0 {
        lemma_modes_keep(g, modes.drop_last(), on);
        lemma_modes_off_primary(g, modes.drop_last(), on);
    }
}

/// Switching modes off on the primary screen draws nothing.
proof fn lemma_modes_off_primary(g: GridView, modes: Seq<u16>, on: bool)
    ensures
        parser::set_modes(g, modes, on).scrollback == g.scrollback,
        parser::set_modes(g, modes, on).primary == g.primary,
        !on ==> parser::set_modes(g, modes, on).primary_cursor == g.primary_cursor,
    decreases modes.len(),
{
    if modes.len() > 0 {
        lemma_modes_off_primary(g, modes.drop_last(), on);
    }
}

proof fn lemma_csi_edit_keeps(g: GridView, p: Seq<u16>, action: char)
    requires
        g.wf(),
    ensures
        keeps(g, parser::csi_edit_grid(g, p, action)),
        parser::csi_edit_grid(g, p, action).on_alt == g.on_alt,
        g.on_alt ==> primary_kept(g, parser::csi_edit_grid(g, p, action)),
{
    lemma_grows_refl(g);
    let n = parser::param(p, 0, 1);
    if action == 'L' || action == 'M' {
        if g.cursor_in_region() {
            lemma_scroll_up_keeps(g, g.cy, g.bot, n, false);
            lemma_scroll_down_keeps(g, g.cy, g.bot, n);
        }
    } else if action == 'S' {
        lemma_scroll_up_keeps(g, g.top, g.bot, n, false);
    } else {
        lemma_scroll_down_keeps(g, g.top, g.bot, n);
    }
}

proof fn lemma_csi_cursor_keeps(g: GridView, p: Seq<u16>, action: char)
    requires
        g.wf(),
    ensures
        keeps(g, parser::csi_cursor_grid(g, p, action)),
        parser::csi_cursor_grid(g, p, action).on_alt == g.on_alt,
        g.on_alt ==> primary_kept(g, parser::csi_cursor_grid(g, p, action)),
{
    lemma_grows_refl(g);
}

proof fn lemma_csi_state_keeps(g: GridView, p: Seq<u16>, action: char)
    requires
        g.wf(),
    ensures
        keeps(g, parser::csi_state_grid(g, p, action)),
        g.on_alt ==> primary_kept(g, parser::csi_state_grid(g, p, action)),
        g.on_alt && action != 'l' ==> parser::csi_state_grid(g, p, action).on_alt,
{
    lemma_grows_refl(g);
    if action == 'h' || action == 'l' {
        lemma_modes_keep(g, p, action == 'h');
    } else if action == 'm' {
        law_sgr_changes_attributes_only(g, p);
    }
}

proof fn lemma_csi_marked_keeps(g: GridView, p: Seq<u16>, intermediates: Seq<u8>, action: char)
    requires
        g.wf(),
    ensures
        keeps(g, parser::csi_marked_grid(g, p, intermediates, action)),
        g.on_alt ==> primary_kept(g, parser::csi_marked_grid(g, p, intermediates, action)),
        g.on_alt && !(parser::is_byte(intermediates, 0x3f) && action == 'l')
            ==> parser::csi_marked_grid(g, p, intermediates, action).on_alt,
{
    lemma_grows_refl(g);
    lemma_modes_keep(g, p, true);
    lemma_modes_keep(g, p, false);
}

proof fn lemma_esc_keeps(g: GridView, intermediates: Seq<u8>, b: u8)
    requires
        g.wf(),
    ensures
        keeps(g, parser::esc_grid(g, intermediates, b)),
        g.on_alt && !(intermediates.len() == 0 && b == 0x63) ==> primary_kept(
            g,
            parser::esc_grid(g, intermediates, b),
        ) && parser::esc_grid(g, intermediates, b).on_alt,
{
    lemma_grows_refl(g);
    if b == 0x44 || b == 0x45 {
        lemma_line_feed_keeps(g);
    } else if b == 0x4d {
        lemma_scroll_down_keeps(GridView { wrap_pending: false, ..g }, g.top, g.bot, 1);
    }
}

/// A reset to the initial state (RIS).
pub open spec fn is_reset(e: EventView) -> bool {
    e matches EventView::Esc { intermediates, byte } && intermediates.len() == 0 && byte == 0x63
}

/// A reset of modes (RM and DECRST), which can leave the alternate screen.
pub open spec fn is_mode_reset(e: EventView) -> bool {
    e matches EventView::Csi { intermediates, action, .. } && (intermediates.len() == 0
        || parser::is_byte(intermediates, 0x3f)) && action == 'l'
}

/// No event changes the size, the capacity of the history or the selection; a view into
/// the history stays over the same, growing history or returns to the bottom.
pub proof fn law_events_keep(t: TermView, e: EventView)
    requires
        t.grid.wf(),
    ensures
        keeps(t.grid, t.perform(e).grid),
{
    lemma_event_frame(t, e);
}

proof fn lemma_event_frame(t: TermView, e: EventView)
    requires
        t.grid.wf(),
    ensures
        keeps(t.grid, t.perform(e).grid),
        t.grid.on_alt && !is_reset(e) ==> primary_kept(t.grid, t.perform(e).grid),
        t.grid.on_alt && !is_reset(e) && !is_mode_reset(e) ==> t.perform(e).grid.on_alt,
{
    let g = t.grid;
    lemma_grows_refl(g);
    match e {
        EventView::Print(c) => {
            lemma_put_keeps(g, c);
            lemma_line_feed_keeps(GridView { cx: 0, ..g });
        },
        EventView::Execute(b) => lemma_line_feed_keeps(g),
        EventView::Csi { params, intermediates, action } => {
            let p = parser::flat_views(params);
            lemma_csi_cursor_keeps(g, p, action);
            lemma_csi_edit_keeps(g, p, action);
            lemma_csi_state_keeps(g, p, action);
            lemma_csi_marked_keeps(g, p, intermediates, action);
        },
        EventView::Esc { intermediates, byte } => lemma_esc_keeps(g, intermediates, byte),
        EventView::Osc(_) => {},
    }
}

// ---- streams of output ----

proof fn lemma_grows_trans(
    a: Seq<Seq<crate::grid::Cell>>,
    b: Seq<Seq<crate::grid::Cell>>,
    c: Seq<Seq<crate::grid::Cell>>,
    first: int,
    second: int,
    capacity: int,
)
    requires
        grows(a, b, first, capacity),
        grows(b, c, second, capacity),
    ensures
        grows(a, c, first + second, capacity),
{
    assert forall|i: int| first + second <= i < a.len() implies c[i - (first + second)]
        == #[trigger] a[i] by {
        assert(b[i - first] == a[i]);
        assert(c[i - first - second] == b[i - first]);
    }
}

proof fn lemma_keeps_trans(g: GridView, h: GridView, k: GridView)
    requires
        keeps(g, h),
        keeps(h, k),
    ensures
        keeps(g, k),
{
    if k.view_offset > 0 {
        reveal(carries_on);
        let first = choose|d: int| grows(g.scrollback, h.scrollback, d, g.max_scrollback);
        let second = choose|d: int| grows(h.scrollback, k.scrollback, d, h.max_scrollback);
        lemma_grows_trans(
            g.scrollback,
            h.scrollback,
            k.scrollback,
            first,
            second,
            g.max_scrollback,
        );
    }
}

proof fn lemma_perform_all_keeps(t: TermView, events: Seq<EventView>)
    requires
        t.grid.wf(),
    ensures
        t.perform_all(events).grid.wf(),
        keeps(t.grid, t.perform_all(events).grid),
    decreases events.len(),
{
    lemma_grows_refl(t.grid);
    if events.len() > 0 {
        let u = t.perform_all(events.drop_last());
        lemma_perform_all_keeps(t, events.drop_last());
        law_events_keep_screen(u, events.last());
        law_events_keep(u, events.last());
        lemma_keeps_trans(t.grid, u.grid, u.perform(events.last()).grid);
    }
}

pub(crate) proof fn lemma_run_keeps(t: TermView, bytes: Seq<u8>)
    requires
        t.grid.wf(),
    ensures
        t.run(bytes).grid.wf(),
        keeps(t.grid, t.run(bytes).grid),
    decreases bytes.len(),
{
    lemma_grows_refl(t.grid);
    if bytes.len() > 0 {
        let u = t.run(bytes.drop_last());
        let (parser, events) = vt::vte_step(u.parser, bytes.last());
        lemma_run_keeps(t, bytes.drop_last());
        lemma_perform_all_keeps(TermView { parser, ..u }, events);
        lemma_keeps_trans(t.grid, u.grid, t.run(bytes).grid);
    }
}

/// Whatever a shell puts out, the screen keeps its size and the history its capacity.
pub proof fn law_output_keeps_size(t: TermView, bytes: Seq<u8>)
    requires
        t.grid.wf(),
    ensures
        ({
            let g = t.feed(bytes).grid;
            &&& g.wf()
            &&& g.cols == t.grid.cols
            &&& g.rows == t.grid.rows
            &&& g.max_scrollback == t.grid.max_scrollback
        }),
{
    lemma_run_keeps(t, bytes);
}

#[verifier::rlimit(30)]
pub(crate) proof fn lemma_run_append(t: TermView, a: Seq<u8>, b: Seq<u8>)
    ensures
        t.run(a + b) == t.run(a).run(b),
    decreases b.len(),
{
    if b.len() == 0 {
        assert(a + b =~= a);
    } else {
        lemma_run_append(t, a, b.drop_last());
        assert((a + b).drop_last() =~= a + b.drop_last());
        assert((a + b).last() == b.last());
    }
}

/// While the view is scrolled up, output that drops no line of the history leaves
/// every history line in view where it is.
pub proof fn law_view_stays_on_content(t: TermView, bytes: Seq<u8>, y: int)
    requires
        t.grid.wf(),
        t.run(bytes).grid.view_offset > 0,
        t.grid.scrollback.len() <= t.run(bytes).grid.scrollback.len(),
        t.grid.scrollback == t.run(bytes).grid.scrollback.subrange(
            0,
            t.grid.scrollback.len() as int,
        ),
        0 <= y < t.grid.view_offset,
    ensures
        ({
            let before = t.grid;
            let after = t.feed(bytes).grid;
            after.vlines()[after.display_vline(y)] == before.vlines()[before.display_vline(y)]
        }),
{
    reveal(carries_on);
    lemma_run_keeps(t, bytes);
    let before = t.grid;
    let after = t.feed(bytes).grid;
    assert(after.display_vline(y) == before.display_vline(y));
    assert(before.scrollback[before.display_vline(y)] == after.scrollback[after.display_vline(y)]);
}

/// While the view is scrolled up, it keeps its place in the history: it shows lines as many
/// further on as output has made the history drop, which is none until the history is full.
pub proof fn law_view_keeps_its_place(t: TermView, bytes: Seq<u8>) -> (dropped: int)
    requires
        t.grid.wf(),
        t.run(bytes).grid.view_offset > 0,
    ensures
        ({
            let before = t.grid;
            let after = t.feed(bytes).grid;
            &&& grows(before.scrollback, after.scrollback, dropped, before.max_scrollback)
            &&& forall|y: int|
                0 <= y < before.view_offset && before.display_vline(y) + dropped
                    < before.scrollback.len() ==> after.vlines()[#[trigger] after.display_vline(y)]
                    == before.vlines()[before.display_vline(y) + dropped]
        }),
{
    reveal(carries_on);
    lemma_run_keeps(t, bytes);
    let before = t.grid;
    let after = t.feed(bytes).grid;
    let dropped = choose|d: int|
        grows(before.scrollback, t.run(bytes).grid.scrollback, d, before.max_scrollback);
    assert forall|y: int|
        0 <= y < before.view_offset && before.display_vline(y) + dropped
            < before.scrollback.len() implies after.vlines()[#[trigger] after.display_vline(y)]
        == before.vlines()[before.display_vline(y) + dropped] by {
        let line = before.display_vline(y);
        assert(after.display_vline(y) == line);
        assert(after.scrollback[line + dropped - dropped] == before.scrollback[line + dropped]);
    }
    dropped
}

/// While the view stays scrolled up, output drops no line of the history before it
/// has reached its capacity.
pub proof fn law_no_line_dropped_early(t: TermView, bytes: Seq<u8>)
    requires
        t.grid.wf(),
        t.run(bytes).grid.view_offset > 0,
        t.run(bytes).grid.scrollback.len() < t.grid.max_scrollback,
    ensures
        t.grid.scrollback.len() <= t.run(bytes).grid.scrollback.len(),
        t.grid.scrollback == t.run(bytes).grid.scrollback.subrange(
            0,
            t.grid.scrollback.len() as int,
        ),
{
    reveal(carries_on);
    lemma_run_keeps(t, bytes);
    let (before, after) = (t.grid.scrollback, t.run(bytes).grid.scrollback);
    assert(before =~= after.subrange(0, before.len() as int));
}

/// Output that makes the history grow clears the selection; other output keeps it.
pub proof fn law_selection_dropped_on_growth(t: TermView, bytes: Seq<u8>)
    requires
        t.grid.wf(),
    ensures
        t.feed(bytes).grid.scrollback.len() > t.grid.scrollback.len() ==> t.feed(
            bytes,
        ).grid.selection is None,
        t.feed(bytes).grid.scrollback.len() <= t.grid.scrollback.len() ==> t.feed(
            bytes,
        ).grid.selection == t.grid.selection,
{
    lemma_run_keeps(t, bytes);
}

/// The events after which the alternate screen is still shown.
pub open spec fn stays_on_alternate(events: Seq<EventView>) -> bool {
    forall|i: int|
        0 <= i < events.len() ==> !is_reset(#[trigger] events[i]) && !is_mode_reset(events[i])
}

/// Nothing that a program does on the alternate screen touches the primary screen,
/// its cursor or the history.
pub proof fn law_alternate_spares_primary(t: TermView, events: Seq<EventView>)
    requires
        t.grid.wf(),
        t.grid.on_alt,
        stays_on_alternate(events),
    ensures
        t.perform_all(events).grid.on_alt,
        primary_kept(t.grid, t.perform_all(events).grid),
    decreases events.len(),
{
    if events.len() > 0 {
        let u = t.perform_all(events.drop_last());
        law_alternate_spares_primary(t, events.drop_last());
        lemma_perform_all_keeps(t, events.drop_last());
        assert(!is_reset(events[events.len() - 1]));
        lemma_event_frame(u, events.last());
    }
}

/// A program that enters the alternate screen, draws, and leaves it gives the
/// primary screen back as it found it.
pub proof fn law_full_screen_program(t: TermView, events: Seq<EventView>)
    requires
        t.grid.wf(),
        !t.grid.on_alt,
        stays_on_alternate(events),
    ensures
        ({
            let u = TermView { grid: t.grid.enter_alt(), ..t }.perform_all(events);
            let back = u.grid.leave_alt();
            &&& back.lines() == t.grid.lines()
            &&& back.cx == t.grid.cx
            &&& back.cy == t.grid.cy
            &&& back.scrollback == t.grid.scrollback
        }),
{
    let s = TermView { grid: t.grid.enter_alt(), ..t };
    assert(s.grid.wf());
    law_alternate_spares_primary(s, events);
    lemma_perform_all_keeps(s, events);
}

// ---- single sequences ----

/// The control sequences that the terminal knows, by their intermediates and their final
/// character.
pub open spec fn known_csi(intermediates: Seq<u8>, action: char) -> bool {
    ||| intermediates.len() == 0 && (parser::moves_cursor(action) || parser::edits_screen(action))
    ||| intermediates.len() == 0 && (action == 'r' || action == 's' || action == 'u' || action
        == 'h' || action == 'l' || action == 'm' || action == 'n' || action == 'c')
    ||| parser::is_byte(intermediates, 0x3f) && (action == 'h' || action == 'l')
    ||| parser::is_byte(intermediates, 0x20) && action == 'q'
}

/// The escape sequences that the terminal knows.
pub open spec fn known_esc(intermediates: Seq<u8>, byte: u8) -> bool {
    intermediates.len() == 0 && (byte == 0x37 || byte == 0x38 || byte == 0x44 || byte == 0x45
        || byte == 0x4d || byte == 0x63)
}

/// Unknown sequences change nothing: not those with an unknown final, and not those whose
/// intermediates make another sequence of a known one.
pub proof fn law_unknown_is_ignored(t: TermView, e: EventView)
    requires
        match e {
            EventView::Print(_) => false,
            EventView::Execute(b) => !(0x08 <= b <= 0x0d),
            EventView::Csi { intermediates, action, .. } => !known_csi(intermediates, action),
            EventView::Esc { intermediates, byte } => !known_esc(intermediates, byte),
            EventView::Osc(fields) => fields.len() < 2 || (fields[0] != seq![0x30u8] && fields[0]
                != seq![0x32u8]),
        },
    ensures
        t.perform(e) == t,
{
    assert(t.responses + Seq::<u8>::empty() =~= t.responses);
}

/// Replies are only ever appended: what is queued stays, in order.
pub proof fn law_replies_are_queued(t: TermView, e: EventView)
    ensures
        t.responses.len() <= t.perform(e).responses.len(),
        t.perform(e).responses.subrange(0, t.responses.len() as int) == t.responses,
{
    assert(t.perform(e).responses.subrange(0, t.responses.len() as int) =~= t.responses);
}

/// Asking for status, cursor position or attributes leaves the screen alone.
pub proof fn law_queries_do_not_draw(
    t: TermView,
    params: Seq<Seq<u16>>,
    intermediates: Seq<u8>,
    action: char,
)
    requires
        action == 'n' || action == 'c',
    ensures
        t.perform(EventView::Csi { params, intermediates, action }).grid == t.grid,
{
}

/// Only an operating system command changes the title.
pub proof fn law_title_from_osc_alone(t: TermView, e: EventView)
    requires
        !(e is Osc),
    ensures
        t.perform(e).title == t.title,
{
}

/// An attribute flag that SGR sets is on, the others stay; and when SGR clears it, it
/// is off.
pub proof fn law_sgr_flags(g: GridView, on: u16, off: u16, bit: u8)
    requires
        ({
            ||| on == 1 && off == 22 && bit == FLAG_BOLD
            ||| on == 3 && off == 23 && bit == FLAG_ITALIC
            ||| on == 4 && off == 24 && bit == FLAG_UNDERLINE
            ||| on == 7 && off == 27 && bit == FLAG_REVERSE
        }),
    ensures
        parser::sgr(g, seq![on]).flags & bit == bit,
        parser::sgr(g, seq![on]).flags & !bit == g.flags & !bit,
        parser::sgr(g, seq![off]).flags & bit == 0,
        parser::sgr(g, seq![off]).flags & !bit == g.flags & !bit,
{
    let f = g.flags;
    reveal_with_fuel(parser::sgr_from, 2);
    assert(parser::sgr(g, seq![on]).flags == f | bit);
    assert(parser::sgr(g, seq![off]).flags == f & !bit);
    assert((f | bit) & bit == bit) by (bit_vector);
    assert((f | bit) & !bit == f & !bit) by (bit_vector);
    assert((f & !bit) & bit == 0) by (bit_vector);
    assert((f & !bit) & !bit == f & !bit) by (bit_vector);
}

} // verus!
