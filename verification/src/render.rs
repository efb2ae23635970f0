//! The differential renderer: what has to be rewritten on the screen to get
//! from the frame that is shown to the next one.

use crate::frame::{blank, grid, new_frame, Frame};
use crate::{NUM_COLS, NUM_ROWS};
use vstd::prelude::*;

verus! {

/// One write to the screen: move to column `x`, row `y` and print `glyph`.
#[derive(Clone, Copy, Debug, PartialEq, Eq)]
pub struct CellWrite {
    pub x: usize,
    pub y: usize,
    pub glyph: char,
}

/// What a frame costs on the screen: whether the screen is cleared first,
/// and the cells to write, in the order in which they are written.
pub struct RenderPlan {
    pub clear: bool,
    pub writes: Vec<CellWrite>,
}

/// Whether `last` has a cell wherever `curr` has one.
pub open spec fn covers(last: Seq<Seq<char>>, curr: Seq<Seq<char>>) -> bool {
    &&& curr.len() <= last.len()
    &&& forall|x: int| 0 <= x < curr.len() ==> (#[trigger] curr[x]).len() <= last[x].len()
}

/// Whether the cell at column `x`, row `y` has to be written: always when a
/// full redraw is forced, else only if it differs from what is shown.
pub open spec fn stale(
    last: Seq<Seq<char>>,
    curr: Seq<Seq<char>>,
    force: bool,
    x: int,
    y: int,
) -> bool {
    last[x][y] != curr[x][y] || force
}

/// The writes for the cells that come before column `x`, row `y`, going
/// through the columns from the left and through each column from the top.
pub open spec fn writes_before(
    last: Seq<Seq<char>>,
    curr: Seq<Seq<char>>,
    force: bool,
    x: int,
    y: int,
) -> Seq<CellWrite>
    decreases x, y,
{
    if y > 0 {
        let before = writes_before(last, curr, force, x, y - 1);
        if stale(last, curr, force, x, y - 1) {
            before.push(CellWrite { x: x as usize, y: (y - 1) as usize, glyph: curr[x][y - 1] })
        } else {
            before
        }
    } else if x > 0 && x <= curr.len() {
        writes_before(last, curr, force, x - 1, curr[x - 1].len() as int)
    } else {
        Seq::empty()
    }
}

/// The writes that turn the screen from `last` into `curr`.
pub open spec fn writes_for(last: Seq<Seq<char>>, curr: Seq<Seq<char>>, force: bool) -> Seq<
    CellWrite,
> {
    writes_before(last, curr, force, curr.len() as int, 0)
}

/// Whether the cell at column `x`, row `y` comes before the one at column
/// `to_x`, row `to_y`, going through the columns from the left and through
/// each column from the top.
pub open spec fn comes_before(x: int, y: int, to_x: int, to_y: int) -> bool {
    x < to_x || (x == to_x && y < to_y)
}

/// Whether column `x`, row `y` is a place up to which the cells of `curr`
/// can be gone through: a cell of the frame, the end of a column, or the end
/// of the frame.
pub open spec fn is_stop(curr: Seq<Seq<char>>, x: int, y: int) -> bool {
    &&& 0 <= x <= curr.len() <= usize::MAX
    &&& forall|c: int| 0 <= c < curr.len() ==> (#[trigger] curr[c]).len() <= usize::MAX
    &&& if x < curr.len() {
        0 <= y <= curr[x].len()
    } else {
        y == 0
    }
}

/// Whether `w` puts the current character into a stale cell of the frame
/// that comes before column `x`, row `y`.
pub open spec fn is_stale_write(
    last: Seq<Seq<char>>,
    curr: Seq<Seq<char>>,
    force: bool,
    w: CellWrite,
    x: int,
    y: int,
) -> bool {
    &&& w.x < curr.len()
    &&& w.y < curr[w.x as int].len()
    &&& comes_before(w.x as int, w.y as int, x, y)
    &&& stale(last, curr, force, w.x as int, w.y as int)
    &&& w.glyph == curr[w.x as int][w.y as int]
}

/// The writes up to a cell are those before it and, if it is stale, one
/// more for the cell before it.
proof fn lemma_one_more(
    last: Seq<Seq<char>>,
    curr: Seq<Seq<char>>,
    force: bool,
    x: int,
    y: int,
    write: CellWrite,
)
    requires
        is_stop(curr, x, y),
        y > 0,
        write == (CellWrite { x: x as usize, y: (y - 1) as usize, glyph: curr[x][y - 1] }),
    ensures
        x < curr.len(),
        is_stop(curr, x, y - 1),
        write.x == x,
        write.y == y - 1,
        ({
            let before = writes_before(last, curr, force, x, y - 1);
            let writes = writes_before(last, curr, force, x, y);
            if stale(last, curr, force, x, y - 1) {
                &&& writes.len() == before.len() + 1
                &&& writes[before.len() as int] == write
                &&& forall|k: int| 0 <= k < before.len() ==> writes[k] == before[k]
            } else {
                writes == before
            }
        }),
{
    let before = writes_before(last, curr, force, x, y - 1);
    assert(before.push(write).len() == before.len() + 1);
}

/// Every write puts the current character into a stale cell of the frame.
pub proof fn lemma_writes_are_stale_cells(
    last: Seq<Seq<char>>,
    curr: Seq<Seq<char>>,
    force: bool,
    x: int,
    y: int,
    k: int,
)
    requires
        is_stop(curr, x, y),
        0 <= k < writes_before(last, curr, force, x, y).len(),
    ensures
        is_stale_write(last, curr, force, writes_before(last, curr, force, x, y)[k], x, y),
    decreases x, y,
{
    if y > 0 {
        let before = writes_before(last, curr, force, x, y - 1);
        let here = CellWrite { x: x as usize, y: (y - 1) as usize, glyph: curr[x][y - 1] };
        lemma_one_more(last, curr, force, x, y, here);
        if k < before.len() {
            lemma_writes_are_stale_cells(last, curr, force, x, y - 1, k);
        }
    } else if x > 0 {
        lemma_writes_are_stale_cells(last, curr, force, x - 1, curr[x - 1].len() as int, k);
    }
}

/// Every stale cell of the frame has its write.
pub proof fn lemma_stale_cells_are_written(
    last: Seq<Seq<char>>,
    curr: Seq<Seq<char>>,
    force: bool,
    x: int,
    y: int,
    cx: int,
    cy: int,
)
    requires
        is_stop(curr, x, y),
        0 <= cx < curr.len(),
        0 <= cy < curr[cx].len(),
        comes_before(cx, cy, x, y),
        stale(last, curr, force, cx, cy),
    ensures
        writes_before(last, curr, force, x, y).contains(
            CellWrite { x: cx as usize, y: cy as usize, glyph: curr[cx][cy] },
        ),
    decreases x, y,
{
    let cell = CellWrite { x: cx as usize, y: cy as usize, glyph: curr[cx][cy] };
    let writes = writes_before(last, curr, force, x, y);
    if y > 0 {
        let before = writes_before(last, curr, force, x, y - 1);
        let here = CellWrite { x: x as usize, y: (y - 1) as usize, glyph: curr[x][y - 1] };
        lemma_one_more(last, curr, force, x, y, here);
        if comes_before(cx, cy, x, y - 1) {
            lemma_stale_cells_are_written(last, curr, force, x, y - 1, cx, cy);
            let k = choose|k: int| 0 <= k < before.len() && before[k] == cell;
            assert(writes[k] == cell);
        } else {
            assert(writes[before.len() as int] == cell);
        }
    } else {
        lemma_stale_cells_are_written(last, curr, force, x - 1, curr[x - 1].len() as int, cx, cy);
    }
}

/// The writes come in the order of their cells, so no cell is written
/// twice.
pub proof fn lemma_writes_are_in_order(
    last: Seq<Seq<char>>,
    curr: Seq<Seq<char>>,
    force: bool,
    x: int,
    y: int,
    j: int,
    k: int,
)
    requires
        is_stop(curr, x, y),
        0 <= j < k < writes_before(last, curr, force, x, y).len(),
    ensures
        ({
            let writes = writes_before(last, curr, force, x, y);
            comes_before(writes[j].x as int, writes[j].y as int, writes[k].x as int, writes[k].y as int)
        }),
    decreases x, y,
{
    if y > 0 {
        let before = writes_before(last, curr, force, x, y - 1);
        let here = CellWrite { x: x as usize, y: (y - 1) as usize, glyph: curr[x][y - 1] };
        lemma_one_more(last, curr, force, x, y, here);
        if k < before.len() {
            lemma_writes_are_in_order(last, curr, force, x, y - 1, j, k);
        } else {
            lemma_writes_are_stale_cells(last, curr, force, x, y - 1, j);
        }
    } else if x > 0 {
        lemma_writes_are_in_order(last, curr, force, x - 1, curr[x - 1].len() as int, j, k);
    }
}

/// The writes for a frame are its stale cells, each once, in the order of
/// the cells: the cost of a frame on the screen is the number of cells that
/// have changed, or with a forced redraw the number of all its cells.
pub proof fn lemma_plan_is_the_stale_cells(last_frame: &Frame, curr_frame: &Frame, force: bool)
    ensures
        forall|k: int|
            0 <= k < writes_for(grid(last_frame), grid(curr_frame), force).len()
                ==> is_stale_write(
                grid(last_frame),
                grid(curr_frame),
                force,
                #[trigger] writes_for(grid(last_frame), grid(curr_frame), force)[k],
                grid(curr_frame).len() as int,
                0,
            ),
        forall|x: int, y: int|
            0 <= x < grid(curr_frame).len() && 0 <= y < grid(curr_frame)[x].len()
                && #[trigger] stale(grid(last_frame), grid(curr_frame), force, x, y)
                ==> writes_for(grid(last_frame), grid(curr_frame), force).contains(
                CellWrite { x: x as usize, y: y as usize, glyph: grid(curr_frame)[x][y] },
            ),
        forall|j: int, k: int|
            0 <= j < k < writes_for(grid(last_frame), grid(curr_frame), force).len()
                ==> comes_before(
                (#[trigger] writes_for(grid(last_frame), grid(curr_frame), force)[j]).x as int,
                writes_for(grid(last_frame), grid(curr_frame), force)[j].y as int,
                (#[trigger] writes_for(grid(last_frame), grid(curr_frame), force)[k]).x as int,
                writes_for(grid(last_frame), grid(curr_frame), force)[k].y as int,
            ),
{
    let last = grid(last_frame);
    let curr = grid(curr_frame);
    let end = curr.len() as int;
    assert(curr.len() == curr_frame.len());
    assert forall|c: int| 0 <= c < curr.len() implies (#[trigger] curr[c]).len() <= usize::MAX by {
        assert(curr[c].len() == curr_frame@[c].len());
    }
    assert(is_stop(curr, end, 0));
    assert forall|k: int| 0 <= k < writes_for(last, curr, force).len() implies is_stale_write(
        last,
        curr,
        force,
        #[trigger] writes_for(last, curr, force)[k],
        end,
        0,
    ) by {
        lemma_writes_are_stale_cells(last, curr, force, end, 0, k);
    }
    assert forall|x: int, y: int|
        0 <= x < curr.len() && 0 <= y < curr[x].len() && #[trigger] stale(
            last,
            curr,
            force,
            x,
            y,
        ) implies writes_for(last, curr, force).contains(
        CellWrite { x: x as usize, y: y as usize, glyph: curr[x][y] },
    ) by {
        lemma_stale_cells_are_written(last, curr, force, end, 0, x, y);
    }
    assert forall|j: int, k: int| 0 <= j < k < writes_for(last, curr, force).len() implies comes_before(
        (#[trigger] writes_for(last, curr, force)[j]).x as int,
        writes_for(last, curr, force)[j].y as int,
        (#[trigger] writes_for(last, curr, force)[k]).x as int,
        writes_for(last, curr, force)[k].y as int,
    ) by {
        lemma_writes_are_in_order(last, curr, force, end, 0, j, k);
    }
}

/// Without a forced redraw, no cell before column `x`, row `y` is written
/// when the frame is the one that is shown already.
pub proof fn lemma_no_writes_before(g: Seq<Seq<char>>, x: int, y: int)
    ensures
        writes_before(g, g, false, x, y) == Seq::<CellWrite>::empty(),
    decreases x, y,
{
    if y > 0 {
        lemma_no_writes_before(g, x, y - 1);
    } else if x > 0 && x <= g.len() {
        lemma_no_writes_before(g, x - 1, g[x - 1].len() as int);
    }
}

/// Rendering a frame a second time, without forcing a redraw, writes
/// nothing.
pub proof fn lemma_same_frame_writes_nothing(g: Seq<Seq<char>>)
    ensures
        writes_for(g, g, false).len() == 0,
{
    lemma_no_writes_before(g, g.len() as int, 0);
}

/// Whether `last_frame` has a cell wherever `curr_frame` has one, so that
/// the one can be rendered against the other.
pub fn frame_covers(last_frame: &Frame, curr_frame: &Frame) -> (covered: bool)
    ensures
        covered == covers(grid(last_frame), grid(curr_frame)),
{
    if curr_frame.len() > last_frame.len() {
        return false;
    }
    let mut x: usize = 0;
    while x < curr_frame.len()
        invariant
            x <= curr_frame@.len() <= last_frame@.len(),
            forall|c: int| 0 <= c < x ==> (#[trigger] grid(curr_frame)[c]).len() <= grid(
                last_frame,
            )[c].len(),
        decreases curr_frame@.len() - x,
    {
        if curr_frame[x].len() > last_frame[x].len() {
            assert(grid(curr_frame)[x as int].len() > grid(last_frame)[x as int].len());
            return false;
        }
        x += 1;
    }
    true
}

/// Plans the writes that show `curr_frame` on a screen that shows
/// `last_frame`. With `force` the screen is cleared and every cell is
/// written; without it only the cells that differ are.
pub fn render(last_frame: &Frame, curr_frame: &Frame, force: bool) -> (plan: RenderPlan)
    requires
        covers(grid(last_frame), grid(curr_frame)),
    ensures
        plan.clear == force,
        plan.writes@ == writes_for(grid(last_frame), grid(curr_frame), force),
{
    let ghost last = grid(last_frame);
    let ghost curr = grid(curr_frame);
    let mut writes: Vec<CellWrite> = Vec::new();
    let mut x: usize = 0;
    while x < curr_frame.len()
        invariant
            x <= curr_frame@.len(),
            last == grid(last_frame),
            curr == grid(curr_frame),
            covers(last, curr),
            writes@ == writes_before(last, curr, force, x as int, 0),
        decreases curr_frame@.len() - x,
    {
        let column = &curr_frame[x];
        let mut y: usize = 0;
        while y < column.len()
            invariant
                x < curr_frame@.len(),
                column@ == curr[x as int],
                y <= column@.len(),
                last == grid(last_frame),
                curr == grid(curr_frame),
                covers(last, curr),
                writes@ == writes_before(last, curr, force, x as int, y as int),
            decreases column@.len() - y,
        {
            let glyph = column[y];
            if last_frame[x][y] != glyph || force {
                writes.push(CellWrite { x, y, glyph });
            }
            y += 1;
        }
        x += 1;
    }
    RenderPlan { clear: force, writes }
}

/// Whether a terminal of `width` columns and `height` rows has room for the
/// playfield. The game does not start on a smaller one.
pub fn has_room(width: u16, height: u16) -> (enough: bool)
    ensures
        enough == (width >= NUM_COLS && height >= NUM_ROWS),
{
    width as usize >= NUM_COLS && height as usize >= NUM_ROWS
}

/// The renderer's memory: the frame that the screen shows.
pub struct Renderer {
    pub last_frame: Frame,
}

impl Renderer {
    /// A renderer for a screen that shows nothing yet.
    pub fn new() -> (renderer: Renderer)
        ensures
            grid(&renderer.last_frame) == blank(NUM_COLS as int, NUM_ROWS as int),
    {
        Renderer { last_frame: new_frame() }
    }

    /// Plans a full redraw of the frame that is shown.
    pub fn redraw(&self) -> (plan: RenderPlan)
        ensures
            plan.clear,
            plan.writes@ == writes_for(grid(&self.last_frame), grid(&self.last_frame), true),
    {
        render(&self.last_frame, &self.last_frame, true)
    }

    /// Whether `frame` can be shown: the frame that is shown has a cell
    /// wherever `frame` has one.
    pub fn can_show(&self, frame: &Frame) -> (ready: bool)
        ensures
            ready == covers(grid(&self.last_frame), grid(frame)),
    {
        frame_covers(&self.last_frame, frame)
    }

    /// Plans the writes that show `frame`, which from then on is the frame
    /// that is shown.
    pub fn show(&mut self, frame: Frame, force: bool) -> (plan: RenderPlan)
        requires
            covers(grid(&old(self).last_frame), grid(&frame)),
        ensures
            plan.clear == force,
            plan.writes@ == writes_for(grid(&old(self).last_frame), grid(&frame), force),
            final(self).last_frame == frame,
    {
        let plan = render(&self.last_frame, &frame, force);
        self.last_frame = frame;
        plan
    }
}

} // verus!
