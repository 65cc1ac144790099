//! Laws of the generation rule, stated over the grid's model and proved
//! once for every grid.

use vstd::prelude::*;
use crate::grid::Grid;

verus! {

/// Law: the generation rule is a function of the grid contents alone — two
/// grids whose dimensions and alive cells agree produce the same next state
/// at every position.
pub proof fn lemma_step_deterministic(a: Grid, b: Grid, x: int, y: int)
    requires
        a.spec_width() == b.spec_width(),
        a.spec_height() == b.spec_height(),
        forall|i: int, j: int| a.alive(i, j) == b.alive(i, j),
    ensures
        a.next_cell(x, y) == b.next_cell(x, y),
{
}

/// Law: a dead cell with exactly three alive neighbors is born; with any
/// other count it stays dead.
pub proof fn lemma_birth(g: Grid, x: int, y: int)
    requires
        !g.alive(x, y),
    ensures
        g.next_cell(x, y) <==> g.live_neighbors(x, y) == 3,
{
}

/// Law: an alive cell's fate is determined by its own neighbor count
/// alone — it survives exactly when that count is two or three.
pub proof fn lemma_survival(g: Grid, x: int, y: int)
    requires
        g.alive(x, y),
    ensures
        g.next_cell(x, y) <==> (g.live_neighbors(x, y) == 2 || g.live_neighbors(x, y) == 3),
{
}

/// Law: a grid with no alive cell produces no alive cell — there are no
/// spontaneous births.
pub proof fn lemma_all_dead_stays_dead(g: Grid, x: int, y: int)
    requires
        forall|i: int, j: int| !g.alive(i, j),
    ensures
        !g.next_cell(x, y),
{
}

/// Law: a two-by-two block of alive cells that touches no edge, alone in
/// the grid, is a still life — one generation leaves every cell as it was.
pub proof fn lemma_block_still_life(g: Grid, bx: int, by: int)
    requires
        1 <= bx,
        bx + 1 <= g.spec_width() - 2,
        1 <= by,
        by + 1 <= g.spec_height() - 2,
        forall|x: int, y: int| g.alive(x, y) <==> (bx <= x <= bx + 1 && by <= y <= by + 1),
    ensures
        forall|x: int, y: int| g.next_cell(x, y) == g.alive(x, y),
{
    assert forall|x: int, y: int| g.next_cell(x, y) == g.alive(x, y) by {
        assert(g.alive(x, y) <==> (bx <= x <= bx + 1 && by <= y <= by + 1));
    }
}

/// A horizontal line of three alive cells centered at `(cx, cy)`, alone in
/// the grid.
pub open spec fn horizontal_blinker(g: Grid, cx: int, cy: int) -> bool {
    forall|x: int, y: int| g.alive(x, y) <==> (y == cy && cx - 1 <= x <= cx + 1)
}

/// A vertical line of three alive cells centered at `(cx, cy)`, alone in
/// the grid.
pub open spec fn vertical_blinker(g: Grid, cx: int, cy: int) -> bool {
    forall|x: int, y: int| g.alive(x, y) <==> (x == cx && cy - 1 <= y <= cy + 1)
}

/// The three-by-three box around `(cx, cy)` stays at least one cell away
/// from every edge.
pub open spec fn blinker_margins(g: Grid, cx: int, cy: int) -> bool {
    &&& 2 <= cx <= g.spec_width() - 3
    &&& 2 <= cy <= g.spec_height() - 3
}

/// Law: one generation turns a horizontal blinker into the vertical line
/// through the same center.
pub proof fn lemma_blinker_horizontal_flips(g: Grid, cx: int, cy: int)
    requires
        blinker_margins(g, cx, cy),
        horizontal_blinker(g, cx, cy),
    ensures
        forall|x: int, y: int| g.next_cell(x, y) <==> (x == cx && cy - 1 <= y <= cy + 1),
{
    assert forall|x: int, y: int| g.next_cell(x, y) <==> (x == cx && cy - 1 <= y <= cy + 1) by {
        assert(g.alive(x, y) <==> (y == cy && cx - 1 <= x <= cx + 1));
    }
}

/// Law: one generation turns a vertical blinker into the horizontal line
/// through the same center.
pub proof fn lemma_blinker_vertical_flips(g: Grid, cx: int, cy: int)
    requires
        blinker_margins(g, cx, cy),
        vertical_blinker(g, cx, cy),
    ensures
        forall|x: int, y: int| g.next_cell(x, y) <==> (y == cy && cx - 1 <= x <= cx + 1),
{
    assert forall|x: int, y: int| g.next_cell(x, y) <==> (y == cy && cx - 1 <= x <= cx + 1) by {
        assert(g.alive(x, y) <==> (x == cx && cy - 1 <= y <= cy + 1));
    }
}

/// Law: a horizontal blinker with margin on all sides oscillates with
/// period two — `g1` holding the generation after `g0`, and `g2` the
/// generation after `g1`, the middle state is the vertical blinker and the
/// last state restores every cell of the first.
pub proof fn lemma_blinker_oscillates(g0: Grid, g1: Grid, g2: Grid, cx: int, cy: int)
    requires
        blinker_margins(g0, cx, cy),
        horizontal_blinker(g0, cx, cy),
        g1.spec_width() == g0.spec_width(),
        g1.spec_height() == g0.spec_height(),
        forall|x: int, y: int|
            0 <= x < g0.spec_width() && 0 <= y < g0.spec_height() ==> g1.alive(x, y)
                == g0.next_cell(x, y),
        g2.spec_width() == g1.spec_width(),
        g2.spec_height() == g1.spec_height(),
        forall|x: int, y: int|
            0 <= x < g1.spec_width() && 0 <= y < g1.spec_height() ==> g2.alive(x, y)
                == g1.next_cell(x, y),
    ensures
        vertical_blinker(g1, cx, cy),
        forall|x: int, y: int| g2.alive(x, y) == g0.alive(x, y),
{
    lemma_blinker_horizontal_flips(g0, cx, cy);
    assert forall|x: int, y: int| g1.alive(x, y) <==> (x == cx && cy - 1 <= y <= cy + 1) by {
        assert(g0.next_cell(x, y) <==> (x == cx && cy - 1 <= y <= cy + 1));
    }
    lemma_blinker_vertical_flips(g1, cx, cy);
    assert forall|x: int, y: int| g2.alive(x, y) == g0.alive(x, y) by {
        assert(g1.next_cell(x, y) <==> (y == cy && cx - 1 <= x <= cx + 1));
        assert(g0.alive(x, y) <==> (y == cy && cx - 1 <= x <= cx + 1));
    }
}

} // verus!
