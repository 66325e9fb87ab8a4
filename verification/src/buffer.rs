//! A screen kept as one flat vector of cells, row after row: range operations on
//! the vector, and what they mean for the lines it stands for.

use vstd::prelude::*;

use crate::grid::Cell;
use crate::screen;

verus! {

/// The lines that a flat buffer stands for.
pub open spec fn lines_of(buf: Seq<Cell>, cols: int, rows: int) -> Seq<Seq<Cell>> {
    Seq::new(rows as nat, |y: int| Seq::new(cols as nat, |x: int| buf[y * cols + x]))
}

/// Cell `(x, y)` lies inside the buffer, at or after the start of line `a` just
/// when `a <= y`.
pub proof fn lemma_row_order(cols: int, rows: int, x: int, y: int, a: int)
    requires
        0 <= x < cols,
        0 <= y < rows,
    ensures
        0 <= y * cols + x < rows * cols,
        a <= y ==> a * cols <= y * cols + x,
        y < a ==> y * cols + x < a * cols,
{
    assert(0 <= y * cols) by (nonlinear_arith)
        requires
            0 <= y,
            0 <= cols,
    ;
    assert((y + 1) * cols <= rows * cols) by (nonlinear_arith)
        requires
            y + 1 <= rows,
            0 <= cols,
    ;
    assert((y + 1) * cols == y * cols + cols) by (nonlinear_arith);
    if a <= y {
        assert(a * cols <= y * cols) by (nonlinear_arith)
            requires
                a <= y,
                0 <= cols,
        ;
    } else {
        assert((y + 1) * cols <= a * cols) by (nonlinear_arith)
            requires
                y + 1 <= a,
                0 <= cols,
        ;
    }
}

/// Two screens with the same cells are equal.
pub proof fn lemma_same_cells(a: Seq<Seq<Cell>>, b: Seq<Seq<Cell>>, cols: int, rows: int)
    requires
        screen::is_screen(a, cols, rows),
        screen::is_screen(b, cols, rows),
        forall|x: int, y: int| 0 <= x < cols && 0 <= y < rows ==> #[trigger] a[y][x] == b[y][x],
    ensures
        a == b,
{
    assert forall|y: int| 0 <= y < rows implies a[y] == b[y] by {
        assert(a[y] =~= b[y]);
    }
    assert(a =~= b);
}

/// Set the cells of `from..to` to `c`.
pub fn fill_range(buf: &mut Vec<Cell>, from: usize, to: usize, c: Cell)
    requires
        from <= to <= old(buf)@.len(),
    ensures
        final(buf)@.len() == old(buf)@.len(),
        forall|i: int|
            0 <= i < old(buf)@.len() ==> #[trigger] final(buf)@[i] == if from <= i < to {
                c
            } else {
                old(buf)@[i]
            },
{
    let ghost b0 = buf@;
    let mut k: usize = from;
    while k < to
        invariant
            from <= k <= to <= b0.len(),
            buf@.len() == b0.len(),
            forall|i: int|
                0 <= i < b0.len() ==> #[trigger] buf@[i] == if from <= i < k {
                    c
                } else {
                    b0[i]
                },
        decreases to - k,
    {
        buf.set(k, c);
        k = k + 1;
    }
}

/// Copy the cells of `src..end` to `dst` on; the two ranges may overlap.
pub fn copy_within(buf: &mut Vec<Cell>, src: usize, end: usize, dst: usize)
    requires
        src <= end <= old(buf)@.len(),
        dst + (end - src) <= old(buf)@.len(),
    ensures
        final(buf)@.len() == old(buf)@.len(),
        forall|i: int|
            0 <= i < old(buf)@.len() ==> #[trigger] final(buf)@[i] == if dst <= i < dst + (end
                - src) {
                old(buf)@[src + (i - dst)]
            } else {
                old(buf)@[i]
            },
{
    let ghost b0 = buf@;
    let len: usize = buf.len();
    let n: usize = end - src;
    if dst <= src {
        let mut k: usize = 0;
        while k < n
            invariant
                dst <= src,
                k <= n,
                src + n <= b0.len() == len,
                buf@.len() == b0.len(),
                forall|i: int|
                    0 <= i < b0.len() ==> #[trigger] buf@[i] == if dst <= i < dst + k {
                        b0[src + (i - dst)]
                    } else {
                        b0[i]
                    },
            decreases n - k,
        {
            let c: Cell = buf[src + k];
            buf.set(dst + k, c);
            k = k + 1;
        }
    } else {
        let mut k: usize = n;
        while k > 0
            invariant
                src < dst,
                k <= n,
                dst + n <= b0.len() == len,
                buf@.len() == b0.len(),
                forall|i: int|
                    0 <= i < b0.len() ==> #[trigger] buf@[i] == if dst + k <= i < dst + n {
                        b0[src + (i - dst)]
                    } else {
                        b0[i]
                    },
            decreases k,
        {
            k = k - 1;
            let c: Cell = buf[src + k];
            buf.set(dst + k, c);
        }
    }
}

/// Moving the cells of lines `top + k..=bot` to line `top` on and blanking the `k`
/// lines at the bottom scrolls the lines up.
pub proof fn lemma_scroll_up(
    b0: Seq<Cell>,
    b1: Seq<Cell>,
    cols: int,
    rows: int,
    top: int,
    bot: int,
    k: int,
    blank: Cell,
)
    requires
        0 < cols,
        b0.len() == rows * cols,
        b1.len() == rows * cols,
        0 <= top <= bot < rows,
        0 < k <= bot - top + 1,
        forall|i: int|
            0 <= i < b0.len() ==> #[trigger] b1[i] == if (bot + 1 - k) * cols <= i < (bot + 1)
                * cols {
                blank
            } else if top * cols <= i < (bot + 1 - k) * cols {
                b0[i + k * cols]
            } else {
                b0[i]
            },
    ensures
        ({
            let l = lines_of(b0, cols, rows);
            lines_of(b1, cols, rows) == l.subrange(0, top) + l.subrange(top + k, bot + 1)
                + screen::uniform(cols, k, blank) + l.subrange(bot + 1, rows)
        }),
{
    let l = lines_of(b0, cols, rows);
    let r = l.subrange(0, top) + l.subrange(top + k, bot + 1) + screen::uniform(cols, k, blank)
        + l.subrange(bot + 1, rows);
    let m = lines_of(b1, cols, rows);
    assert forall|x: int, y: int| 0 <= x < cols && 0 <= y < rows implies #[trigger] m[y][x]
        == r[y][x] by {
        lemma_row_order(cols, rows, x, y, top);
        lemma_row_order(cols, rows, x, y, bot + 1 - k);
        lemma_row_order(cols, rows, x, y, bot + 1);
        assert((y + k) * cols == y * cols + k * cols) by (nonlinear_arith);
        assert(m[y][x] == b1[y * cols + x]);
    }
    lemma_same_cells(m, r, cols, rows);
}

/// Moving the cells of lines `top..=bot - k` down by `k` lines and blanking the `k`
/// lines at the top scrolls the lines down.
pub proof fn lemma_scroll_down(
    b0: Seq<Cell>,
    b1: Seq<Cell>,
    cols: int,
    rows: int,
    top: int,
    bot: int,
    k: int,
    blank: Cell,
)
    requires
        0 < cols,
        b0.len() == rows * cols,
        b1.len() == rows * cols,
        0 <= top <= bot < rows,
        0 < k <= bot - top + 1,
        forall|i: int|
            0 <= i < b0.len() ==> #[trigger] b1[i] == if top * cols <= i < (top + k) * cols {
                blank
            } else if (top + k) * cols <= i < (bot + 1) * cols {
                b0[i - k * cols]
            } else {
                b0[i]
            },
    ensures
        ({
            let l = lines_of(b0, cols, rows);
            lines_of(b1, cols, rows) == l.subrange(0, top) + screen::uniform(cols, k, blank)
                + l.subrange(top, bot + 1 - k) + l.subrange(bot + 1, rows)
        }),
{
    let l = lines_of(b0, cols, rows);
    let r = l.subrange(0, top) + screen::uniform(cols, k, blank) + l.subrange(top, bot + 1 - k)
        + l.subrange(bot + 1, rows);
    let m = lines_of(b1, cols, rows);
    assert forall|x: int, y: int| 0 <= x < cols && 0 <= y < rows implies #[trigger] m[y][x]
        == r[y][x] by {
        lemma_row_order(cols, rows, x, y, top);
        lemma_row_order(cols, rows, x, y, top + k);
        lemma_row_order(cols, rows, x, y, bot + 1);
        assert((y - k) * cols == y * cols - k * cols) by (nonlinear_arith);
        assert(m[y][x] == b1[y * cols + x]);
    }
    lemma_same_cells(m, r, cols, rows);
}

/// The cells of `old`, a screen of `oc` by `or` cells, laid out anew for `cols` by
/// `rows`.
pub fn regrid(old: &Vec<Cell>, oc: usize, or: usize, cols: usize, rows: usize) -> (next: Vec<Cell>)
    requires
        1 <= oc,
        old@.len() == or * oc,
        1 <= cols,
        screen::screen_fits(cols as int, rows as int),
    ensures
        next@.len() == rows * cols,
        lines_of(next@, cols as int, rows as int) == screen::regrid(
            lines_of(old@, oc as int, or as int),
            oc as int,
            or as int,
            cols as int,
            rows as int,
        ),
{
    let mut next: Vec<Cell> = Vec::new();
    let mut y: usize = 0;
    while y < rows
        invariant
            1 <= oc,
            old@.len() == or * oc,
            1 <= cols,
            screen::screen_fits(cols as int, rows as int),
            y <= rows,
            next@.len() == y * cols,
            forall|i: int, j: int|
                0 <= i < cols && 0 <= j < y ==> #[trigger] next@[j * cols + i] == if j < or && i
                    < oc {
                    old@[j * oc + i]
                } else {
                    screen::default_cell()
                },
        decreases rows - y,
    {
        let ghost done = next@;
        let mut x: usize = 0;
        while x < cols
            invariant
                1 <= oc,
                old@.len() == or * oc,
                y < rows,
                x <= cols,
                done.len() == y * cols,
                next@.len() == y * cols + x,
                forall|i: int| 0 <= i < done.len() ==> #[trigger] next@[i] == done[i],
                forall|i: int|
                    0 <= i < x ==> #[trigger] next@[y * cols + i] == if y < or && i < oc {
                        old@[y * oc + i]
                    } else {
                        screen::default_cell()
                    },
            decreases cols - x,
        {
            if y < or && x < oc {
                proof {
                    lemma_row_order(oc as int, or as int, x as int, y as int, 0);
                }
                let len: usize = old.len();
                next.push(old[y * oc + x]);
            } else {
                next.push(Cell::default());
            }
            x = x + 1;
        }
        proof {
            assert((y + 1) * cols == y * cols + cols) by (nonlinear_arith);
            assert forall|i: int, j: int| 0 <= i < cols && 0 <= j < y + 1 implies #[trigger] next@[j
                * cols + i] == if j < or && i < oc {
                old@[j * oc + i]
            } else {
                screen::default_cell()
            } by {
                lemma_row_order(cols as int, y + 1, i, j, y as int);
                if j < y {
                    assert(next@[j * cols + i] == done[j * cols + i]);
                }
            }
        }
        y = y + 1;
    }
    proof {
        let m = lines_of(next@, cols as int, rows as int);
        let r = screen::regrid(
            lines_of(old@, oc as int, or as int),
            oc as int,
            or as int,
            cols as int,
            rows as int,
        );
        assert forall|i: int, j: int| 0 <= i < cols && 0 <= j < rows implies #[trigger] m[j][i]
            == r[j][i] by {
            assert(m[j][i] == next@[j * cols + i]);
        }
        lemma_same_cells(m, r, cols as int, rows as int);
    }
    next
}

/// A buffer of fresh cells for `cols` by `rows`.
pub fn fresh(cols: usize, rows: usize) -> (buf: Vec<Cell>)
    requires
        1 <= cols,
        screen::screen_fits(cols as int, rows as int),
    ensures
        buf@.len() == rows * cols,
        lines_of(buf@, cols as int, rows as int) == screen::uniform(
            cols as int,
            rows as int,
            screen::default_cell(),
        ),
{
    let buf: Vec<Cell> = vec![Cell::default(); rows * cols];
    proof {
        lemma_filled(buf@, cols as int, rows as int, screen::default_cell());
    }
    buf
}

/// A buffer filled with `c` is a screen of `c`.
pub proof fn lemma_filled(b: Seq<Cell>, cols: int, rows: int, c: Cell)
    requires
        0 < cols,
        0 <= rows,
        b.len() == rows * cols,
        forall|i: int| 0 <= i < b.len() ==> #[trigger] b[i] == c,
    ensures
        lines_of(b, cols, rows) == screen::uniform(cols, rows, c),
{
    let m = lines_of(b, cols, rows);
    let r = screen::uniform(cols, rows, c);
    assert forall|i: int, j: int| 0 <= i < cols && 0 <= j < rows implies #[trigger] m[j][i]
        == r[j][i] by {
        lemma_row_order(cols, rows, i, j, 0);
        assert(m[j][i] == b[j * cols + i]);
    }
    lemma_same_cells(m, r, cols, rows);
}

/// A buffer that differs from another on line `cy` alone.
pub proof fn lemma_line_replaced(b0: Seq<Cell>, b1: Seq<Cell>, cols: int, rows: int, cy: int)
    requires
        0 < cols,
        0 <= cy < rows,
        b0.len() == rows * cols,
        b1.len() == rows * cols,
        forall|i: int|
            0 <= i < b0.len() && !(cy * cols <= i < cy * cols + cols) ==> #[trigger] b1[i] == b0[i],
    ensures
        0 <= cy * cols,
        cy * cols + cols <= b0.len(),
        lines_of(b0, cols, rows)[cy] == b0.subrange(cy * cols, cy * cols + cols),
        lines_of(b1, cols, rows) == lines_of(b0, cols, rows).update(
            cy,
            b1.subrange(cy * cols, cy * cols + cols),
        ),
{
    lemma_row_order(cols, rows, 0, cy, 0);
    lemma_row_order(cols, rows, cols - 1, cy, 0);
    assert(lines_of(b0, cols, rows)[cy] =~= b0.subrange(cy * cols, cy * cols + cols));
    let m = lines_of(b1, cols, rows);
    let r = lines_of(b0, cols, rows).update(cy, b1.subrange(cy * cols, cy * cols + cols));
    assert forall|x: int, y: int| 0 <= x < cols && 0 <= y < rows implies #[trigger] m[y][x]
        == r[y][x] by {
        lemma_row_order(cols, rows, x, y, cy);
        lemma_row_order(cols, rows, x, y, cy + 1);
        assert((cy + 1) * cols == cy * cols + cols) by (nonlinear_arith);
        assert(m[y][x] == b1[y * cols + x]);
    }
    lemma_same_cells(m, r, cols, rows);
}

} // verus!
