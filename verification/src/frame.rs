//! The character grid that a frame is drawn into, and the capabilities that
//! every simulated entity offers: a bounding rectangle, a per-tick update and
//! a way of drawing itself.

use crate::{NUM_COLS, NUM_ROWS};
use vstd::prelude::*;
use vstd::string::StrSliceExecFns;

verus! {

/// A frame is a list of columns, each a list of cells from the top row down:
/// `frame[x][y]` is the cell in column `x` and row `y`.
pub type Frame = Vec<Vec<char>>;

/// The cells of a frame as a sequence of columns.
pub open spec fn grid(frame: &Frame) -> Seq<Seq<char>> {
    Seq::new(frame@.len(), |x: int| frame@[x]@)
}

/// The number of columns of a grid.
pub open spec fn width(g: Seq<Seq<char>>) -> int {
    g.len() as int
}

/// The number of rows of a grid, taken from its first column.
pub open spec fn height(g: Seq<Seq<char>>) -> int {
    if g.len() > 0 {
        g[0].len() as int
    } else {
        0
    }
}

/// Every column has the same number of rows.
pub open spec fn rectangular(g: Seq<Seq<char>>) -> bool {
    forall|x: int| 0 <= x < g.len() ==> (#[trigger] g[x]).len() == height(g)
}

/// Two grids have the same columns lengths.
pub open spec fn same_shape(a: Seq<Seq<char>>, b: Seq<Seq<char>>) -> bool {
    &&& a.len() == b.len()
    &&& forall|x: int| 0 <= x < a.len() ==> (#[trigger] a[x]).len() == b[x].len()
}

/// A grid of `cols` columns and `rows` rows that holds spaces only.
pub open spec fn blank(cols: int, rows: int) -> Seq<Seq<char>> {
    Seq::new(cols as nat, |x: int| Seq::new(rows as nat, |y: int| ' '))
}

/// The grid `g` with the cell at column `x`, row `y` replaced by `c`.
pub open spec fn with_cell(g: Seq<Seq<char>>, x: int, y: int, c: char) -> Seq<Seq<char>> {
    g.update(x, g[x].update(y, c))
}

/// An empty frame of `NUM_COLS` columns and `NUM_ROWS` rows.
pub fn new_frame() -> (frame: Frame)
    ensures
        grid(&frame) == blank(NUM_COLS as int, NUM_ROWS as int),
{
    let mut frame: Frame = Vec::new();
    let mut x: usize = 0;
    while x < NUM_COLS
        invariant
            x <= NUM_COLS,
            frame@.len() == x,
            forall|i: int| 0 <= i < x ==> (#[trigger] frame@[i])@ == Seq::new(
                NUM_ROWS as nat,
                |y: int| ' ',
            ),
        decreases NUM_COLS - x,
    {
        let mut column: Vec<char> = Vec::new();
        let mut y: usize = 0;
        while y < NUM_ROWS
            invariant
                y <= NUM_ROWS,
                column@.len() == y,
                forall|j: int| 0 <= j < y ==> #[trigger] column@[j] == ' ',
            decreases NUM_ROWS - y,
        {
            column.push(' ');
            y += 1;
        }
        assert(column@ =~= Seq::new(NUM_ROWS as nat, |y: int| ' '));
        frame.push(column);
        x += 1;
    }
    assert(grid(&frame) =~= blank(NUM_COLS as int, NUM_ROWS as int));
    frame
}

/// Writes `c` into the cell at column `x`, row `y`.
pub fn put(frame: &mut Frame, x: usize, y: usize, c: char)
    requires
        x < grid(old(frame)).len(),
        y < grid(old(frame))[x as int].len(),
    ensures
        grid(final(frame)) == with_cell(grid(old(frame)), x as int, y as int, c),
        same_shape(grid(final(frame)), grid(old(frame))),
{
    frame[x][y] = c;
    assert(grid(frame) =~= with_cell(grid(old(frame)), x as int, y as int, c));
}

/// An axis-aligned rectangle of grid cells: its top-left corner and its size.
#[derive(Clone, Copy, Debug, PartialEq, Eq)]
pub struct Rect {
    pub x: usize,
    pub y: usize,
    pub width: usize,
    pub height: usize,
}

/// Two rectangles collide when their half-open spans overlap on both axes.
pub open spec fn collides(a: Rect, b: Rect) -> bool {
    &&& a.x < b.x + b.width
    &&& a.x + a.width > b.x
    &&& a.y < b.y + b.height
    &&& a.y + a.height > b.y
}

/// Whether the half-open span of length `len` that starts at `start` begins
/// before the end of the span of length `other_len` that starts at `other`.
fn starts_before_end(start: usize, other: usize, other_len: usize) -> (yes: bool)
    ensures
        yes == (start < other + other_len),
{
    start < other || start - other < other_len
}

/// The collision test is symmetric in its two rectangles.
pub proof fn lemma_collision_symmetric(a: Rect, b: Rect)
    ensures
        collides(a, b) == collides(b, a),
{
}

/// Anything with a position and a size on the grid.
pub trait Transform {
    /// The rectangle that the entity covers.
    spec fn bounds(&self) -> Rect;

    fn get_x(&self) -> (x: usize)
        ensures
            x == self.bounds().x,
    ;

    fn get_y(&self) -> (y: usize)
        ensures
            y == self.bounds().y,
    ;

    fn get_width(&self) -> (width: usize)
        ensures
            width == self.bounds().width,
    ;

    fn get_height(&self) -> (height: usize)
        ensures
            height == self.bounds().height,
    ;

    /// The rectangle that the entity covers, as a value.
    fn rect(&self) -> (r: Rect)
        ensures
            r == self.bounds(),
    {
        Rect {
            x: self.get_x(),
            y: self.get_y(),
            width: self.get_width(),
            height: self.get_height(),
        }
    }

    /// Whether the entity's rectangle and `other` overlap. Every entity uses
    /// this one test.
    fn check_collision(&self, other: &Rect) -> (hit: bool)
        ensures
            hit == collides(self.bounds(), *other),
    {
        let x = self.get_x();
        let y = self.get_y();
        let width = self.get_width();
        let height = self.get_height();
        starts_before_end(x, other.x, other.width) && starts_before_end(other.x, x, width)
            && starts_before_end(y, other.y, other.height) && starts_before_end(
            other.y,
            y,
            height,
        )
    }
}

/// Whether two entities collide: the one test of
/// [`Transform::check_collision`], taken between two entities.
pub fn entities_collide<A: Transform, B: Transform>(a: &A, b: &B) -> (hit: bool)
    ensures
        hit == collides(a.bounds(), b.bounds()),
{
    a.check_collision(&b.rect())
}

/// Anything that changes as time passes.
pub trait Updatable: Sized {
    /// What must hold of the entity before it can be updated.
    spec fn updatable(&self) -> bool;

    /// Whether `after` is a state that `delta` nanoseconds can lead to.
    spec fn update_yields(&self, delta: u64, after: &Self) -> bool;

    fn update(&mut self, delta: u64)
        requires
            old(self).updatable(),
        ensures
            old(self).update_yields(delta, final(self)),
    ;
}

/// Advances every one of `items` by `delta` nanoseconds.
pub fn update_all<T: Updatable>(items: &mut Vec<T>, delta: u64)
    requires
        forall|i: int| 0 <= i < old(items)@.len() ==> (#[trigger] old(items)@[i]).updatable(),
    ensures
        final(items)@.len() == old(items)@.len(),
        forall|i: int|
            0 <= i < old(items)@.len() ==> (#[trigger] old(items)@[i]).update_yields(
                delta,
                &final(items)@[i],
            ),
{
    let mut i: usize = 0;
    while i < items.len()
        invariant
            i <= items@.len(),
            items@.len() == old(items)@.len(),
            forall|k: int|
                0 <= k < i ==> (#[trigger] old(items)@[k]).update_yields(delta, &items@[k]),
            forall|k: int| i <= k < items@.len() ==> #[trigger] items@[k] == old(items)@[k],
            forall|k: int| 0 <= k < old(items)@.len() ==> (#[trigger] old(items)@[k]).updatable(),
        decreases items@.len() - i,
    {
        items[i].update(delta);
        i += 1;
    }
}

/// Anything that can draw itself into a frame.
pub trait Drawable {
    /// Whether every cell that the entity draws lies inside a grid of `cols`
    /// columns and `rows` rows.
    spec fn fits(&self, cols: int, rows: int) -> bool;

    /// The grid with the entity drawn over it.
    spec fn drawn(&self, g: Seq<Seq<char>>) -> Seq<Seq<char>>;

    fn draw(&self, frame: &mut Frame)
        requires
            rectangular(grid(old(frame))),
            self.fits(width(grid(old(frame))), height(grid(old(frame)))),
        ensures
            grid(final(frame)) == self.drawn(grid(old(frame))),
            same_shape(grid(final(frame)), grid(old(frame))),
    ;
}

/// Whether every one of `items` fits a grid of `cols` columns and `rows` rows.
pub open spec fn all_fit<T: Drawable>(items: Seq<T>, cols: int, rows: int) -> bool {
    forall|i: int| 0 <= i < items.len() ==> (#[trigger] items[i]).fits(cols, rows)
}

/// The grid with the first `n` of `items` drawn over it, one after another.
pub open spec fn drawn_upto<T: Drawable>(items: Seq<T>, g: Seq<Seq<char>>, n: int) -> Seq<
    Seq<char>,
>
    decreases n,
{
    if n <= 0 {
        g
    } else {
        items[n - 1].drawn(drawn_upto(items, g, n - 1))
    }
}

/// The grid with all of `items` drawn over it, the first one first.
pub open spec fn drawn_all<T: Drawable>(items: Seq<T>, g: Seq<Seq<char>>) -> Seq<Seq<char>> {
    drawn_upto(items, g, items.len() as int)
}

/// Draws every one of `items` into the frame, the first one first.
pub fn draw_all<T: Drawable>(items: &Vec<T>, frame: &mut Frame)
    requires
        rectangular(grid(old(frame))),
        all_fit(items@, width(grid(old(frame))), height(grid(old(frame)))),
    ensures
        grid(final(frame)) == drawn_all(items@, grid(old(frame))),
        same_shape(grid(final(frame)), grid(old(frame))),
{
    let mut i: usize = 0;
    while i < items.len()
        invariant
            i <= items@.len(),
            rectangular(grid(old(frame))),
            same_shape(grid(frame), grid(old(frame))),
            all_fit(items@, width(grid(old(frame))), height(grid(old(frame)))),
            grid(frame) == drawn_upto(items@, grid(old(frame)), i as int),
        decreases items@.len() - i,
    {
        items[i].draw(frame);
        i += 1;
    }
}

/// The grid after the characters of `sprite` from index `from` on have been
/// written, the next one going to column `x + col`, row `y + row`. A line
/// feed moves to the start of the next row and is not written itself.
pub open spec fn stamped_from(
    g: Seq<Seq<char>>,
    x: int,
    y: int,
    sprite: Seq<char>,
    from: int,
    col: int,
    row: int,
) -> Seq<Seq<char>>
    decreases sprite.len() - from,
{
    if from < 0 || from >= sprite.len() {
        g
    } else if sprite[from] == '\n' {
        stamped_from(g, x, y, sprite, from + 1, 0, row + 1)
    } else {
        stamped_from(
            with_cell(g, x + col, y + row, sprite[from]),
            x,
            y,
            sprite,
            from + 1,
            col + 1,
            row,
        )
    }
}

/// The grid with `sprite` written so that its first character lands on
/// column `x`, row `y`.
pub open spec fn stamped(g: Seq<Seq<char>>, x: int, y: int, sprite: Seq<char>) -> Seq<Seq<char>> {
    stamped_from(g, x, y, sprite, 0, 0, 0)
}

/// Whether the characters of `sprite` from index `from` on, the next one
/// standing at column `col`, row `row` of the sprite, all stand inside a box
/// of `w` columns and `h` rows.
pub open spec fn boxed_from(sprite: Seq<char>, from: int, col: int, row: int, w: int, h: int) -> bool
    decreases sprite.len() - from,
{
    if from < 0 || from >= sprite.len() {
        true
    } else if sprite[from] == '\n' {
        boxed_from(sprite, from + 1, 0, row + 1, w, h)
    } else {
        col < w && row < h && boxed_from(sprite, from + 1, col + 1, row, w, h)
    }
}

/// Whether `sprite` is at most `w` characters wide and `h` lines high.
pub open spec fn boxed(sprite: Seq<char>, w: int, h: int) -> bool {
    boxed_from(sprite, 0, 0, 0, w, h)
}

/// Whether `sprite`, with its top-left corner at column `x`, row `y`, lies
/// inside a grid of `cols` columns and `rows` rows: it fits a box that does.
pub open spec fn sprite_fits(sprite: Seq<char>, x: int, y: int, cols: int, rows: int) -> bool {
    exists|w: int, h: int| #[trigger] boxed(sprite, w, h) && x + w <= cols && y + h <= rows
}

/// Writes `sprite` into the frame with its top-left corner at column `x`,
/// row `y`. Lines are separated by line feeds.
pub fn draw_sprite(frame: &mut Frame, x: usize, y: usize, sprite: &str)
    requires
        rectangular(grid(old(frame))),
        sprite_fits(
            sprite@,
            x as int,
            y as int,
            width(grid(old(frame))),
            height(grid(old(frame))),
        ),
    ensures
        grid(final(frame)) == stamped(grid(old(frame)), x as int, y as int, sprite@),
        same_shape(grid(final(frame)), grid(old(frame))),
{
    let ghost (w, h) = choose|w: int, h: int| #[trigger]
        boxed(sprite@, w, h) && x + w <= width(grid(old(frame))) && y + h <= height(
            grid(old(frame)),
        );
    let n = sprite.unicode_len();
    let mut i: usize = 0;
    let mut col: usize = 0;
    let mut row: usize = 0;
    while i < n
        invariant
            n == sprite@.len(),
            i <= n,
            rectangular(grid(old(frame))),
            same_shape(grid(frame), grid(old(frame))),
            x + w <= width(grid(old(frame))),
            y + h <= height(grid(old(frame))),
            col <= i,
            row <= i,
            boxed_from(sprite@, i as int, col as int, row as int, w, h),
            stamped_from(grid(frame), x as int, y as int, sprite@, i as int, col as int, row as int)
                == stamped(grid(old(frame)), x as int, y as int, sprite@),
        decreases n - i,
    {
        let c = sprite.get_char(i);
        if c == '\n' {
            row += 1;
            col = 0;
        } else {
            assert(x + col < old(frame).len() <= usize::MAX);
            assert(y + row < old(frame)@[0].len() <= usize::MAX);
            assert(grid(frame)[x + col].len() == grid(old(frame))[x + col].len());
            put(frame, x + col, y + row, c);
            col += 1;
        }
        i += 1;
    }
}

} // verus!
