//! Laws of what the viewer sees and takes: the view into the history, the selection, and the text
//! that is copied.

use vstd::prelude::*;

use crate::screen;
use crate::screen::GridView;
use crate::text;

verus! {

// ---- the view ----

/// The view scrolls by as many lines as asked for, up into the history for positive amounts, and
/// stops at either end of it. Nothing else changes.
pub proof fn law_view_scrolls_as_asked(g: GridView, delta: int)
    requires
        g.wf(),
    ensures
        ({
            let r = g.scroll_view(delta);
            let v = g.view_offset + delta;
            &&& r == (GridView { view_offset: r.view_offset, ..g })
            &&& 0 <= v <= g.scrollback.len() ==> r.view_offset == v
            &&& v < 0 ==> r.view_offset == 0
            &&& v > g.scrollback.len() ==> r.view_offset == g.scrollback.len()
        }),
        g.snap_to_bottom() == (GridView { view_offset: 0, ..g }),
{
}

/// A view that is scrolled up by some lines shows as many of the newest lines of the history, in
/// order, and below them the screen from its first line on.
pub proof fn law_view_joins_history_and_screen(g: GridView, y: int)
    requires
        g.wf(),
        0 <= y < g.rows,
    ensures
        ({
            let shown = g.vlines()[g.display_vline(y)];
            &&& y < g.view_offset ==> shown == g.scrollback[g.scrollback.len() - g.view_offset + y]
            &&& y >= g.view_offset ==> shown == g.lines()[y - g.view_offset]
        }),
{
}

/// The virtual lines are those of the history and then those of the screen.
pub proof fn law_virtual_lines(g: GridView, i: int)
    requires
        g.wf(),
    ensures
        g.vlines().len() == g.scrollback.len() + g.rows,
        0 <= i < g.scrollback.len() ==> g.vlines()[i] == g.scrollback[i],
        0 <= i < g.rows ==> g.vlines()[g.scrollback.len() + i] == g.lines()[i],
{
}

// ---- the selection ----

/// Position `a` comes before position `b` as one reads, or is the same.
pub open spec fn not_after(a: (int, int), b: (int, int)) -> bool {
    a.0 < b.0 || (a.0 == b.0 && a.1 <= b.1)
}

/// A selection takes the cells from where it began to where it was last taken, both of them
/// included, as one reads, whichever comes first. It changes nothing else.
pub proof fn law_selection_takes_what_lies_between(
    g: GridView,
    a: (usize, usize),
    m: (usize, usize),
    b: (usize, usize),
    vline: int,
    x: int,
)
    ensures
        ({
            let r = g.sel_begin(a.0, a.1).sel_update(m.0, m.1).sel_update(b.0, b.1);
            let (p, q) = ((a.0 as int, a.1 as int), (b.0 as int, b.1 as int));
            let at = (vline, x);
            &&& r == (GridView { selection: r.selection, ..g })
            &&& r.selects(vline, x) <==> (not_after(p, at) && not_after(at, q)) || (not_after(
                q,
                at,
            ) && not_after(at, p))
        }),
        g.sel_begin(a.0, a.1).selects(vline, x) <==> vline == a.0 && x == a.1,
{
}

/// Without a selection nothing is selected, nothing is copied, and there is nothing to extend.
pub proof fn law_no_selection(g: GridView, at: (usize, usize), vline: int, x: int)
    ensures
        ({
            let r = g.sel_clear();
            &&& r == (GridView { selection: None, ..g })
            &&& !r.selects(vline, x)
            &&& r.selection_text().len() == 0
            &&& r.sel_update(at.0, at.1) == r
        }),
{
}

// ---- the copied text ----

/// What is copied of a part of one line is what stands there, from its first selected column on,
/// up to its last character that is no whitespace: character by character that of the cell, with
/// nothing but whitespace left out at the end.
pub proof fn law_copied_line(g: GridView, vline: usize, from: usize, to: usize)
    requires
        g.wf(),
        vline < g.vlines().len(),
        from <= to,
    ensures
        ({
            let cells = g.vlines()[vline as int];
            let t = g.sel_begin(vline, from).sel_update(vline, to).selection_text();
            &&& t.len() == 0 || from + t.len() <= cells.len()
            &&& t.len() <= to - from + 1
            &&& forall|i: int| 0 <= i < t.len() ==> #[trigger] t[i] == cells[from + i].ch
            &&& t.len() > 0 ==> !text::white_space(t[t.len() - 1])
            &&& forall|x: int|
                from + t.len() <= x <= to && x < cells.len() ==> text::white_space(
                    (#[trigger] cells[x]).ch,
                )
        }),
{
    let r = g.sel_begin(vline, from).sel_update(vline, to);
    let v = vline as int;
    let cells = g.vlines()[v];
    let t = r.selection_text();
    let part = r.selected_in_line(v, v, from as int, v, to as int);
    assert(r.vlines() == g.vlines());
    assert(r.selected_until(v, v, from as int, v, to as int) =~= Seq::<char>::empty());
    assert(t =~= part);
    let last = screen::min(to as int, cells.len() - 1);
    if from <= last {
        let chars = cells.subrange(from as int, last + 1).map_values(
            |c: crate::grid::Cell| c.ch,
        );
        text::law_trim_end_keeps_start(chars);
        assert forall|i: int| 0 <= i < t.len() implies #[trigger] t[i] == cells[from + i].ch by {
            assert(chars[i] == cells[from + i].ch);
        }
        assert forall|x: int| from + t.len() <= x <= to && x < cells.len() implies text::white_space(
            (#[trigger] cells[x]).ch,
        ) by {
            assert(chars[x - from] == cells[x].ch);
        }
    }
}

/// A selection of several lines is copied line by line, with CR LF between the lines: cut at the
/// end of any of its lines but the last, it gives the text of its two parts with a CR LF between
/// them.
pub proof fn law_copied_lines(
    g: GridView,
    al: usize,
    ac: usize,
    k: usize,
    bl: usize,
    bc: usize,
)
    requires
        g.wf(),
        al <= k < bl < g.vlines().len(),
        ac < g.cols <= usize::MAX,
    ensures
        g.sel_begin(al, ac).sel_update(bl, bc).selection_text() == g.sel_begin(al, ac).sel_update(
            k,
            (g.cols - 1) as usize,
        ).selection_text() + seq!['\r', '\n'] + g.sel_begin((k + 1) as usize, 0).sel_update(
            bl,
            bc,
        ).selection_text(),
{
    let (al, ac, k, bl, bc) = (al as int, ac as int, k as int, bl as int, bc as int);
    let p = g.sel_begin(al as usize, ac as usize).sel_update(bl as usize, bc as usize);
    let q = g.sel_begin(al as usize, ac as usize).sel_update(k as usize, (g.cols - 1) as usize);
    let r = g.sel_begin((k + 1) as usize, 0).sel_update(bl as usize, bc as usize);
    assert(p.vlines() == g.vlines() && q.vlines() == g.vlines() && r.vlines() == g.vlines());
    lemma_cut(p, q, r, bl + 1, al, ac, k, bl, bc);
}

/// A selection that goes on below the last line there is gives the text down to that line, ended by
/// CR LF, and nothing where it begins below it.
pub proof fn law_copied_past_the_end(g: GridView, al: usize, ac: usize, bl: usize, bc: usize)
    requires
        g.wf(),
        g.vlines().len() <= bl,
        al <= bl,
        al == bl ==> ac <= bc,
        ac < g.cols <= usize::MAX,
    ensures
        ({
            let t = g.sel_begin(al, ac).sel_update(bl, bc).selection_text();
            let last = (g.vlines().len() - 1) as usize;
            &&& al > last ==> t.len() == 0
            &&& al <= last ==> t == g.sel_begin(al, ac).sel_update(
                last,
                (g.cols - 1) as usize,
            ).selection_text() + seq!['\r', '\n']
        }),
{
    let n = g.vlines().len() as int;
    let last = (n - 1) as usize;
    let p = g.sel_begin(al, ac).sel_update(bl, bc);
    let q = g.sel_begin(al, ac).sel_update(last, (g.cols - 1) as usize);
    assert(p.vlines() == g.vlines() && q.vlines() == g.vlines());
    if al <= last {
        let (l, c, k, e) = (al as int, ac as int, n - 1, bl as int);
        lemma_lines_before(p, q, k, l, c, k, e, bc as int);
        assert(p.selected_in_line(k, l, c, e, bc as int) == q.selected_in_line(
            k,
            l,
            c,
            k,
            g.cols - 1,
        ));
        let line = q.selected_in_line(k, l, c, k, g.cols - 1);
        assert(q.selection_text() =~= q.selected_until(k, l, c, k, g.cols - 1) + line);
        assert(p.selection_text() =~= q.selection_text() + seq!['\r', '\n']);
    }
}

/// Lines that are not the last of a selection do not depend on where it ends.
proof fn lemma_lines_before(p: GridView, q: GridView, end: int, al: int, ac: int, k: int, bl: int, bc: int)
    requires
        p.vlines() == q.vlines(),
        p.cols == q.cols,
        al <= end <= k < bl,
    ensures
        p.selected_until(end, al, ac, bl, bc) == q.selected_until(end, al, ac, k, q.cols - 1),
    decreases end - al,
{
    if end > al {
        lemma_lines_before(p, q, end - 1, al, ac, k, bl, bc);
    }
}

proof fn lemma_cut(
    p: GridView,
    q: GridView,
    r: GridView,
    end: int,
    al: int,
    ac: int,
    k: int,
    bl: int,
    bc: int,
)
    requires
        p.vlines() == q.vlines(),
        p.vlines() == r.vlines(),
        p.cols == q.cols,
        p.cols == r.cols,
        al <= k < bl,
        k < end <= bl + 1,
    ensures
        p.selected_until(end, al, ac, bl, bc) == q.selected_until(k + 1, al, ac, k, q.cols - 1)
            + seq!['\r', '\n'] + r.selected_until(end, k + 1, 0, bl, bc),
    decreases end - k,
{
    let head = q.selected_until(k + 1, al, ac, k, q.cols - 1);
    if end == k + 1 {
        lemma_lines_before(p, q, k, al, ac, k, bl, bc);
        assert(p.selected_in_line(k, al, ac, bl, bc) == q.selected_in_line(
            k,
            al,
            ac,
            k,
            q.cols - 1,
        ));
        assert(head =~= q.selected_until(k, al, ac, k, q.cols - 1) + q.selected_in_line(
            k,
            al,
            ac,
            k,
            q.cols - 1,
        ));
        assert(p.selected_until(end, al, ac, bl, bc) =~= head + seq!['\r', '\n']);
        assert(r.selected_until(end, k + 1, 0, bl, bc) =~= Seq::<char>::empty());
        assert(p.selected_until(end, al, ac, bl, bc) =~= head + seq!['\r', '\n']
            + r.selected_until(end, k + 1, 0, bl, bc));
    } else {
        lemma_cut(p, q, r, end - 1, al, ac, k, bl, bc);
        assert(p.selected_in_line(end - 1, al, ac, bl, bc) == r.selected_in_line(
            end - 1,
            k + 1,
            0,
            bl,
            bc,
        ));
        assert(p.selected_until(end, al, ac, bl, bc) =~= head + seq!['\r', '\n']
            + r.selected_until(end, k + 1, 0, bl, bc));
    }
}

} // verus!
