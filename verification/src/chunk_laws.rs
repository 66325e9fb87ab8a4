//! How output is cut into pieces makes no difference to a terminal.

use vstd::prelude::*;

use crate::parser;
use crate::parser::TermView;
use crate::screen;
use crate::screen::GridView;
use crate::term_laws;
use crate::vt;
use crate::vt::EventView;

verus! {

// ---- the content ----

/// Everything but the viewer's own state: where the view is, and the selection.
spec fn content(g: GridView) -> GridView {
    GridView { view_offset: 0, selection: None, ..g }
}

proof fn lemma_erase_content(
    g: GridView,
    h: GridView,
    p: spec_fn(int, int) -> bool,
    q: spec_fn(int, int) -> bool,
)
    requires
        content(g) == content(h),
        forall|x: int, y: int| #![trigger p(x, y)] #![trigger q(x, y)] p(x, y) == q(x, y),
    ensures
        content(g.erase_where(p)) == content(h.erase_where(q)),
{
    let a = g.erase_where(p).lines();
    let b = h.erase_where(q).lines();
    assert forall|y: int| 0 <= y < a.len() implies a[y] == b[y] by {
        assert(a[y] =~= b[y]);
    }
    assert(a =~= b);
}

proof fn lemma_scroll_content(
    g: GridView,
    h: GridView,
    top: int,
    bot: int,
    n: int,
    capture: bool,
)
    requires
        content(g) == content(h),
    ensures
        content(g.scroll_up(top, bot, n, capture)) == content(h.scroll_up(top, bot, n, capture)),
        content(g.scroll_down(top, bot, n)) == content(h.scroll_down(top, bot, n)),
{
    let k = screen::min(n, bot - top + 1);
    assert(g.lines() == h.lines());
    assert(g.blank_lines(k) == h.blank_lines(k));
    assert(g.captures(top, bot, capture) == h.captures(top, bot, capture));
}

proof fn lemma_line_feed_content(g: GridView, h: GridView)
    requires
        content(g) == content(h),
    ensures
        content(g.line_feed()) == content(h.line_feed()),
        content(g.reverse_line_feed()) == content(h.reverse_line_feed()),
{
    let a = GridView { wrap_pending: false, ..g };
    let b = GridView { wrap_pending: false, ..h };
    assert(content(a) == content(b));
    lemma_scroll_content(a, b, g.top, g.bot, 1, true);
}

proof fn lemma_put_content(g: GridView, h: GridView, ch: char)
    requires
        content(g) == content(h),
    ensures
        content(g.put(ch)) == content(h.put(ch)),
{
    let a = GridView { cx: 0, ..g };
    let b = GridView { cx: 0, ..h };
    assert(content(a) == content(b));
    lemma_line_feed_content(a, b);
    lemma_write_content(g.carry_wrap(), h.carry_wrap(), ch);
}

proof fn lemma_write_content(g: GridView, h: GridView, ch: char)
    requires
        content(g) == content(h),
    ensures
        content(
            g.write_cell(crate::grid::Cell { ch, fg: g.fg, bg: g.bg, flags: g.flags }),
        ) == content(h.write_cell(crate::grid::Cell { ch, fg: h.fg, bg: h.bg, flags: h.flags })),
{
}

proof fn lemma_line_edit_content(g: GridView, h: GridView, n: int)
    requires
        content(g) == content(h),
    ensures
        content(g.insert_chars(n)) == content(h.insert_chars(n)),
        content(g.delete_chars(n)) == content(h.delete_chars(n)),
{
    let k = screen::min(n, g.cols - g.cx);
    assert(g.blank_cells(k) =~= h.blank_cells(k));
    assert(g.lines() == h.lines());
}

proof fn lemma_erase_display_content(g: GridView, h: GridView, mode: u16)
    requires
        content(g) == content(h),
    ensures
        content(g.erase_display(mode)) == content(h.erase_display(mode)),
{
    if mode == 0 {
        lemma_erase_content(
            g,
            h,
            |x: int, y: int| screen::reading_le(g.cy, g.cx, y, x),
            |x: int, y: int| screen::reading_le(h.cy, h.cx, y, x),
        );
    } else if mode == 1 {
        lemma_erase_content(
            g,
            h,
            |x: int, y: int| screen::reading_le(y, x, g.cy, g.cx),
            |x: int, y: int| screen::reading_le(y, x, h.cy, h.cx),
        );
    } else {
        lemma_erase_content(g, h, |x: int, y: int| true, |x: int, y: int| true);
    }
}

proof fn lemma_erase_line_content(g: GridView, h: GridView, mode: u16, n: int)
    requires
        content(g) == content(h),
    ensures
        content(g.erase_line(mode)) == content(h.erase_line(mode)),
        content(g.erase_chars(n)) == content(h.erase_chars(n)),
{
    lemma_erase_content(
        g,
        h,
        |x: int, y: int| y == g.cy && g.cx <= x < g.cx + n,
        |x: int, y: int| y == h.cy && h.cx <= x < h.cx + n,
    );
    if mode == 0 {
        lemma_erase_content(
            g,
            h,
            |x: int, y: int| y == g.cy && g.cx <= x,
            |x: int, y: int| y == h.cy && h.cx <= x,
        );
    } else if mode == 1 {
        lemma_erase_content(
            g,
            h,
            |x: int, y: int| y == g.cy && x <= g.cx,
            |x: int, y: int| y == h.cy && x <= h.cx,
        );
    } else {
        lemma_erase_content(g, h, |x: int, y: int| y == g.cy, |x: int, y: int| y == h.cy);
    }
}

proof fn lemma_edit_content(g: GridView, h: GridView, p: Seq<u16>, action: char)
    requires
        content(g) == content(h),
    ensures
        content(parser::csi_edit_grid(g, p, action)) == content(
            parser::csi_edit_grid(h, p, action),
        ),
{
    let n = parser::param(p, 0, 1);
    let mode = parser::first_param(p, 0);
    if action == 'J' {
        lemma_erase_display_content(g, h, mode);
    } else if action == 'K' || action == 'X' {
        lemma_erase_line_content(g, h, mode, n);
    } else if action == '@' || action == 'P' {
        lemma_line_edit_content(g, h, n);
    } else if action == 'L' || action == 'M' {
        lemma_scroll_content(g, h, g.cy, g.bot, n, false);
    } else {
        lemma_scroll_content(g, h, g.top, g.bot, n, false);
    }
}

proof fn lemma_mode_content(g: GridView, h: GridView, m: u16, on: bool)
    requires
        content(g) == content(h),
    ensures
        content(parser::mode_one(g, m, on)) == content(parser::mode_one(h, m, on)),
{
}

proof fn lemma_modes_content(g: GridView, h: GridView, modes: Seq<u16>, on: bool)
    requires
        content(g) == content(h),
    ensures
        content(parser::set_modes(g, modes, on)) == content(parser::set_modes(h, modes, on)),
    decreases modes.len(),
{
    if modes.len() > 0 {
        lemma_modes_content(g, h, modes.drop_last(), on);
        lemma_mode_content(
            parser::set_modes(g, modes.drop_last(), on),
            parser::set_modes(h, modes.drop_last(), on),
            modes.last(),
            on,
        );
    }
}

proof fn lemma_sgr_one_content(g: GridView, h: GridView, p: Seq<u16>, i: int)
    requires
        content(g) == content(h),
    ensures
        content(parser::sgr_one(g, p, i).0) == content(parser::sgr_one(h, p, i).0),
        parser::sgr_one(g, p, i).1 == parser::sgr_one(h, p, i).1,
{
}

proof fn lemma_sgr_content(g: GridView, h: GridView, p: Seq<u16>, i: int)
    requires
        content(g) == content(h),
    ensures
        content(parser::sgr_from(g, p, i)) == content(parser::sgr_from(h, p, i)),
    decreases p.len() - i,
{
    if 0 <= i < p.len() {
        let (next, used) = parser::sgr_one(g, p, i);
        let (other, same) = parser::sgr_one(h, p, i);
        lemma_sgr_one_content(g, h, p, i);
        lemma_sgr_content(next, other, p, screen::min(i + used, p.len() as int));
    }
}

proof fn lemma_state_content(g: GridView, h: GridView, p: Seq<u16>, action: char)
    requires
        content(g) == content(h),
    ensures
        content(parser::csi_state_grid(g, p, action)) == content(
            parser::csi_state_grid(h, p, action),
        ),
{
    if action == 'h' || action == 'l' {
        lemma_modes_content(g, h, p, action == 'h');
    } else if action == 'm' {
        lemma_sgr_content(g, h, p, 0);
    }
}

proof fn lemma_marked_content(
    g: GridView,
    h: GridView,
    p: Seq<u16>,
    intermediates: Seq<u8>,
    action: char,
)
    requires
        content(g) == content(h),
    ensures
        content(parser::csi_marked_grid(g, p, intermediates, action)) == content(
            parser::csi_marked_grid(h, p, intermediates, action),
        ),
{
    lemma_modes_content(g, h, p, true);
    lemma_modes_content(g, h, p, false);
}

proof fn lemma_cursor_content(g: GridView, h: GridView, p: Seq<u16>, action: char)
    requires
        content(g) == content(h),
    ensures
        content(parser::csi_cursor_grid(g, p, action)) == content(
            parser::csi_cursor_grid(h, p, action),
        ),
{
}

proof fn lemma_csi_content(
    g: GridView,
    h: GridView,
    p: Seq<u16>,
    intermediates: Seq<u8>,
    action: char,
)
    requires
        content(g) == content(h),
    ensures
        content(parser::csi_grid(g, p, intermediates, action)) == content(
            parser::csi_grid(h, p, intermediates, action),
        ),
{
    if intermediates.len() > 0 {
        lemma_marked_content(g, h, p, intermediates, action);
    } else if parser::moves_cursor(action) {
        lemma_cursor_content(g, h, p, action);
    } else if parser::edits_screen(action) {
        lemma_edit_content(g, h, p, action);
    } else {
        lemma_state_content(g, h, p, action);
    }
}

proof fn lemma_execute_content(g: GridView, h: GridView, b: u8)
    requires
        content(g) == content(h),
    ensures
        content(parser::execute_grid(g, b)) == content(parser::execute_grid(h, b)),
{
    if 0x0a <= b <= 0x0c {
        lemma_line_feed_content(g, h);
    }
}

#[verifier::rlimit(30)]
proof fn lemma_esc_content(g: GridView, h: GridView, intermediates: Seq<u8>, b: u8)
    requires
        content(g) == content(h),
    ensures
        content(parser::esc_grid(g, intermediates, b)) == content(
            parser::esc_grid(h, intermediates, b),
        ),
{
    if b == 0x44 || b == 0x45 || b == 0x4d {
        lemma_line_feed_content(g, h);
    }
}

/// The same terminal but for the viewer's own state and the parser.
#[verifier::opaque]
spec fn same_content(t: TermView, u: TermView) -> bool {
    &&& content(t.grid) == content(u.grid)
    &&& t.title == u.title
    &&& t.responses == u.responses
}

proof fn lemma_perform_content(t: TermView, u: TermView, e: EventView)
    requires
        same_content(t, u),
    ensures
        same_content(t.perform(e), u.perform(e)),
{
    reveal(same_content);
    match e {
        EventView::Print(c) => lemma_put_content(t.grid, u.grid, c),
        EventView::Execute(b) => lemma_execute_content(t.grid, u.grid, b),
        EventView::Csi { params, intermediates, action } => {
            let p = parser::flat_views(params);
            lemma_csi_content(t.grid, u.grid, p, intermediates, action);
            assert(parser::csi_reply(t.grid, p, intermediates, action) == parser::csi_reply(
                u.grid,
                p,
                intermediates,
                action,
            ));
        },
        EventView::Esc { intermediates, byte } => lemma_esc_content(
            t.grid,
            u.grid,
            intermediates,
            byte,
        ),
        EventView::Osc(_) => {},
    }
}

proof fn lemma_perform_all_content(t: TermView, u: TermView, events: Seq<EventView>)
    requires
        same_content(t, u),
    ensures
        same_content(t.perform_all(events), u.perform_all(events)),
    decreases events.len(),
{
    if events.len() > 0 {
        lemma_perform_all_content(t, u, events.drop_last());
        lemma_perform_content(
            t.perform_all(events.drop_last()),
            u.perform_all(events.drop_last()),
            events.last(),
        );
    }
}

proof fn lemma_perform_all_parser(t: TermView, events: Seq<EventView>)
    ensures
        t.perform_all(events).parser == t.parser,
    decreases events.len(),
{
    if events.len() > 0 {
        lemma_perform_all_parser(t, events.drop_last());
    }
}

proof fn lemma_run_content(t: TermView, u: TermView, bytes: Seq<u8>)
    requires
        same_content(t, u),
        t.parser == u.parser,
    ensures
        same_content(t.run(bytes), u.run(bytes)),
        t.run(bytes).parser == u.run(bytes).parser,
    decreases bytes.len(),
{
    if bytes.len() > 0 {
        let v = t.run(bytes.drop_last());
        let w = u.run(bytes.drop_last());
        lemma_run_content(t, u, bytes.drop_last());
        let (parser, events) = vt::vte_step(v.parser, bytes.last());
        assert(same_content(TermView { parser, ..v }, TermView { parser, ..w })) by {
            reveal(same_content);
        }
        lemma_perform_all_content(TermView { parser, ..v }, TermView { parser, ..w }, events);
        lemma_perform_all_parser(TermView { parser, ..v }, events);
        lemma_perform_all_parser(TermView { parser, ..w }, events);
    }
}

proof fn lemma_settle_content(t: TermView, before: int)
    ensures
        same_content(t, t.settle(before)),
        t.settle(before).parser == t.parser,
{
    reveal(same_content);
}

// ---- the viewer's own state ----

/// From `g` to `g2` and from `h` to `h2` the same happened to the viewer: the selection was
/// left alone, and the view was too or went back to the bottom.
#[verifier::opaque]
spec fn alike(g: GridView, g2: GridView, h: GridView, h2: GridView) -> bool {
    &&& g2.selection == g.selection
    &&& h2.selection == h.selection
    &&& (g2.view_offset == g.view_offset && h2.view_offset == h.view_offset) || (g2.view_offset == 0
        && h2.view_offset == 0)
}

/// The viewer's own state is as it was.
spec fn quiet(g: GridView, g2: GridView) -> bool {
    &&& g2.selection == g.selection
    &&& g2.view_offset == g.view_offset
}

proof fn lemma_alike_refl(g: GridView, h: GridView)
    ensures
        alike(g, g, h, h),
{
    reveal(alike);
}

proof fn lemma_quiet_alike(g: GridView, g2: GridView, h: GridView, h2: GridView)
    requires
        quiet(g, g2),
        quiet(h, h2),
    ensures
        alike(g, g2, h, h2),
{
    reveal(alike);
}

proof fn lemma_alike_trans(
    g: GridView,
    g2: GridView,
    g3: GridView,
    h: GridView,
    h2: GridView,
    h3: GridView,
)
    requires
        alike(g, g2, h, h2),
        alike(g2, g3, h2, h3),
    ensures
        alike(g, g3, h, h3),
{
    reveal(alike);
}

proof fn lemma_put_viewer(g: GridView, c: char)
    ensures
        quiet(g, g.put(c)),
{
}

proof fn lemma_edit_viewer(g: GridView, p: Seq<u16>, action: char)
    ensures
        quiet(g, parser::csi_edit_grid(g, p, action)),
{
}

proof fn lemma_cursor_viewer(g: GridView, p: Seq<u16>, action: char)
    ensures
        quiet(g, parser::csi_cursor_grid(g, p, action)),
{
}

proof fn lemma_mode_viewer(g: GridView, h: GridView, m: u16, on: bool)
    requires
        content(g) == content(h),
    ensures
        alike(g, parser::mode_one(g, m, on), h, parser::mode_one(h, m, on)),
{
    reveal(alike);
    assert(content(g).on_alt == content(h).on_alt);
}

proof fn lemma_modes_viewer(g: GridView, h: GridView, modes: Seq<u16>, on: bool)
    requires
        content(g) == content(h),
    ensures
        alike(g, parser::set_modes(g, modes, on), h, parser::set_modes(h, modes, on)),
    decreases modes.len(),
{
    if modes.len() == 0 {
        lemma_alike_refl(g, h);
    } else {
        let init = modes.drop_last();
        let (g2, h2) = (parser::set_modes(g, init, on), parser::set_modes(h, init, on));
        lemma_modes_viewer(g, h, init, on);
        lemma_modes_content(g, h, init, on);
        lemma_mode_viewer(g2, h2, modes.last(), on);
        lemma_alike_trans(
            g,
            g2,
            parser::mode_one(g2, modes.last(), on),
            h,
            h2,
            parser::mode_one(h2, modes.last(), on),
        );
    }
}

proof fn lemma_state_viewer(g: GridView, h: GridView, p: Seq<u16>, action: char)
    requires
        content(g) == content(h),
    ensures
        alike(g, parser::csi_state_grid(g, p, action), h, parser::csi_state_grid(h, p, action)),
{
    if action == 'h' || action == 'l' {
        lemma_modes_viewer(g, h, p, action == 'h');
    } else {
        if action == 'm' {
            term_laws::law_sgr_changes_attributes_only(g, p);
            term_laws::law_sgr_changes_attributes_only(h, p);
        }
        lemma_quiet_alike(
            g,
            parser::csi_state_grid(g, p, action),
            h,
            parser::csi_state_grid(h, p, action),
        );
    }
}

proof fn lemma_marked_viewer(
    g: GridView,
    h: GridView,
    p: Seq<u16>,
    intermediates: Seq<u8>,
    action: char,
)
    requires
        content(g) == content(h),
    ensures
        alike(
            g,
            parser::csi_marked_grid(g, p, intermediates, action),
            h,
            parser::csi_marked_grid(h, p, intermediates, action),
        ),
{
    if parser::is_byte(intermediates, 0x3f) && (action == 'h' || action == 'l') {
        lemma_modes_viewer(g, h, p, action == 'h');
    } else {
        lemma_quiet_alike(
            g,
            parser::csi_marked_grid(g, p, intermediates, action),
            h,
            parser::csi_marked_grid(h, p, intermediates, action),
        );
    }
}

proof fn lemma_csi_viewer(
    g: GridView,
    h: GridView,
    p: Seq<u16>,
    intermediates: Seq<u8>,
    action: char,
)
    requires
        content(g) == content(h),
    ensures
        alike(
            g,
            parser::csi_grid(g, p, intermediates, action),
            h,
            parser::csi_grid(h, p, intermediates, action),
        ),
{
    let (g2, h2) = (
        parser::csi_grid(g, p, intermediates, action),
        parser::csi_grid(h, p, intermediates, action),
    );
    if intermediates.len() > 0 {
        lemma_marked_viewer(g, h, p, intermediates, action);
    } else if parser::moves_cursor(action) {
        lemma_cursor_viewer(g, p, action);
        lemma_cursor_viewer(h, p, action);
        lemma_quiet_alike(g, g2, h, h2);
    } else if parser::edits_screen(action) {
        lemma_edit_viewer(g, p, action);
        lemma_edit_viewer(h, p, action);
        lemma_quiet_alike(g, g2, h, h2);
    } else {
        lemma_state_viewer(g, h, p, action);
    }
}

proof fn lemma_execute_viewer(g: GridView, b: u8)
    ensures
        quiet(g, parser::execute_grid(g, b)),
{
}

proof fn lemma_esc_viewer(g: GridView, h: GridView, intermediates: Seq<u8>, b: u8)
    ensures
        alike(
            g,
            parser::esc_grid(g, intermediates, b),
            h,
            parser::esc_grid(h, intermediates, b),
        ),
{
    reveal(alike);
}

proof fn lemma_event_viewer(t: TermView, u: TermView, e: EventView)
    requires
        same_content(t, u),
    ensures
        alike(t.grid, t.perform(e).grid, u.grid, u.perform(e).grid),
{
    let (g, h) = (t.grid, u.grid);
    assert(content(g) == content(h)) by {
        reveal(same_content);
    }
    match e {
        EventView::Print(c) => {
            lemma_put_viewer(g, c);
            lemma_put_viewer(h, c);
            lemma_quiet_alike(g, g.put(c), h, h.put(c));
        },
        EventView::Execute(b) => {
            lemma_execute_viewer(g, b);
            lemma_execute_viewer(h, b);
            lemma_quiet_alike(g, parser::execute_grid(g, b), h, parser::execute_grid(h, b));
        },
        EventView::Csi { params, intermediates, action } => {
            lemma_csi_viewer(g, h, parser::flat_views(params), intermediates, action);
        },
        EventView::Esc { intermediates, byte } => lemma_esc_viewer(g, h, intermediates, byte),
        EventView::Osc(_) => lemma_alike_refl(g, h),
    }
}

proof fn lemma_perform_all_viewer(t: TermView, u: TermView, events: Seq<EventView>)
    requires
        same_content(t, u),
    ensures
        alike(t.grid, t.perform_all(events).grid, u.grid, u.perform_all(events).grid),
    decreases events.len(),
{
    if events.len() == 0 {
        lemma_alike_refl(t.grid, u.grid);
    } else {
        let init = events.drop_last();
        let (v, w) = (t.perform_all(init), u.perform_all(init));
        lemma_perform_all_viewer(t, u, init);
        lemma_perform_all_content(t, u, init);
        lemma_event_viewer(v, w, events.last());
        lemma_alike_trans(
            t.grid,
            v.grid,
            v.perform(events.last()).grid,
            u.grid,
            w.grid,
            w.perform(events.last()).grid,
        );
    }
}

#[verifier::rlimit(30)]
proof fn lemma_run_viewer(t: TermView, u: TermView, bytes: Seq<u8>)
    requires
        same_content(t, u),
        t.parser == u.parser,
    ensures
        alike(t.grid, t.run(bytes).grid, u.grid, u.run(bytes).grid),
    decreases bytes.len(),
{
    if bytes.len() == 0 {
        lemma_alike_refl(t.grid, u.grid);
    } else {
        let init = bytes.drop_last();
        let (v, w) = (t.run(init), u.run(init));
        lemma_run_viewer(t, u, init);
        lemma_run_content(t, u, init);
        let (parser, events) = vt::vte_step(v.parser, bytes.last());
        let (v1, w1) = (TermView { parser, ..v }, TermView { parser, ..w });
        assert(same_content(v1, w1)) by {
            reveal(same_content);
        }
        lemma_perform_all_viewer(v1, w1, events);
        lemma_alike_trans(
            t.grid,
            v.grid,
            v1.perform_all(events).grid,
            u.grid,
            w.grid,
            w1.perform_all(events).grid,
        );
    }
}

/// Where a view is once a history that had `before` lines and has `len` is settled.
spec fn settled_view(v: int, before: int, len: int) -> int {
    if len > before && v > 0 {
        screen::clamp(v + (len - before), 0, len)
    } else {
        v
    }
}

/// Settling moves the view, drops the selection if it must, and leaves the rest.
proof fn lemma_settle_viewer(t: TermView, before: int)
    ensures
        t.settle(before).grid.view_offset == settled_view(
            t.grid.view_offset,
            before,
            t.grid.scrollback.len() as int,
        ),
        t.settle(before).grid.selection == (if t.grid.scrollback.len() > before {
            None
        } else {
            t.grid.selection
        }),
        content(t.settle(before).grid) == content(t.grid),
{
}

/// Grids with the same content and the same view are the same but for the selection.
proof fn lemma_same_grid(g: GridView, h: GridView)
    requires
        content(g) == content(h),
        g.view_offset == h.view_offset,
    ensures
        g == (GridView { selection: g.selection, ..h }),
{
    assert(g == GridView {
        view_offset: g.view_offset,
        selection: g.selection,
        ..content(g)
    });
}

/// The view after further output, settled once or twice.
proof fn lemma_view_alike(g: GridView, g2: GridView, h: GridView, h2: GridView, before: int)
    requires
        alike(g, g2, h, h2),
        0 <= before,
        0 <= g.view_offset <= g.scrollback.len(),
        g.view_offset > 0 ==> g.view_offset <= before <= g.scrollback.len(),
        h.view_offset == settled_view(g.view_offset, before, g.scrollback.len() as int),
        g2.view_offset > 0 ==> g.scrollback.len() <= g2.scrollback.len(),
    ensures
        settled_view(g2.view_offset, before, g2.scrollback.len() as int) == settled_view(
            h2.view_offset,
            g.scrollback.len() as int,
            g2.scrollback.len() as int,
        ),
{
    reveal(alike);
}

/// Output that goes on from `t`, whose history had `before` lines, settled in the end alone or
/// before and after it.
proof fn lemma_settled_between(t: TermView, before: int, bytes: Seq<u8>)
    requires
        t.grid.wf(),
        0 <= before,
        t.grid.view_offset > 0 ==> t.grid.view_offset <= before <= t.grid.scrollback.len(),
    ensures
        ({
            let mid = t.grid.scrollback.len() as int;
            let end = t.run(bytes).grid.scrollback.len() as int;
            let whole = t.run(bytes).settle(before);
            let parts = t.settle(before).run(bytes).settle(mid);
            &&& whole == TermView {
                grid: GridView { selection: whole.grid.selection, ..parts.grid },
                ..parts
            }
            &&& whole.grid.selection == (if end > before {
                None
            } else {
                t.grid.selection
            })
            &&& parts.grid.selection == (if mid > before || end > mid {
                None
            } else {
                t.grid.selection
            })
        }),
{
    let u = t.settle(before);
    let (t2, u2) = (t.run(bytes), u.run(bytes));
    let mid = t.grid.scrollback.len() as int;
    lemma_settle_content(t, before);
    lemma_run_content(t, u, bytes);
    lemma_run_viewer(t, u, bytes);
    term_laws::lemma_run_keeps(t, bytes);
    reveal(term_laws::carries_on);
    assert(content(t2.grid) == content(u2.grid) && t2.title == u2.title && t2.responses
        == u2.responses) by {
        reveal(same_content);
    }
    assert(content(t2.grid).scrollback == content(u2.grid).scrollback);
    lemma_settle_viewer(t, before);
    lemma_settle_viewer(t2, before);
    lemma_settle_viewer(u2, mid);
    lemma_view_alike(t.grid, t2.grid, u.grid, u2.grid, before);
    lemma_same_grid(t2.settle(before).grid, u2.settle(mid).grid);
    assert(t2.grid.selection == t.grid.selection && u2.grid.selection == u.grid.selection) by {
        reveal(alike);
    }
}

/// The history has grown over two pieces of output together, or over neither of them. Only a
/// reset, which empties the history, makes it otherwise.
pub open spec fn grown_alike(t: TermView, a: Seq<u8>, b: Seq<u8>) -> bool {
    let start = t.grid.scrollback.len();
    let mid = t.run(a).grid.scrollback.len();
    let end = t.run(a + b).grid.scrollback.len();
    start < end || end <= mid <= start
}

/// How output is cut into pieces makes no difference, to the screen or to the viewer: but for
/// a selection while a reset empties the history. It is dropped where a piece of output leaves
/// the history longer than it found it.
pub proof fn law_chunks_make_no_difference(t: TermView, a: Seq<u8>, b: Seq<u8>)
    requires
        t.grid.wf(),
    ensures
        ({
            let (whole, parts) = (t.feed(a + b), t.feed(a).feed(b));
            &&& whole == TermView {
                grid: GridView { selection: whole.grid.selection, ..parts.grid },
                ..parts
            }
            &&& t.grid.selection is None || grown_alike(t, a, b) ==> whole == parts
        }),
{
    let before = t.grid.scrollback.len() as int;
    term_laws::lemma_run_append(t, a, b);
    term_laws::lemma_run_keeps(t, a);
    reveal(term_laws::carries_on);
    lemma_settle_viewer(t.run(a), before);
    assert(content(t.feed(a).grid).scrollback == content(t.run(a).grid).scrollback);
    lemma_settled_between(t.run(a), before, b);
}

} // verus!
