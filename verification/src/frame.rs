use vstd::prelude::*;
use vstd::arithmetic::div_mod::{lemma_mod_add_multiples_vanish, lemma_small_mod};

verus! {

/// The toroidal resolution of position `x` moved by `d` on an axis of
/// extent `m`: plain addition followed by a wrap to `0..m`.
pub open spec fn wrap_index(x: int, d: int, m: int) -> int {
    (x + d) % m
}

/// Construction failure: a frame must have both dimensions positive.
#[derive(Clone, Copy, Debug, PartialEq, Eq, Structural)]
pub enum FrameError {
    ZeroDimension,
}

/// Represents a frame of a simulation: a dense `width` by `height` grid of
/// cells, indexed by an `x` column and a `y` row, whose edges wrap around.
/// This internal representation is not stable and should not be relied upon.
#[derive(Debug, PartialEq)]
pub struct Frame<T> {
    data: Vec<Vec<T>>,
    width: usize,
    height: usize,
}

impl<T> View for Frame<T> {
    type V = Seq<Seq<T>>;

    /// A frame abstracts to its columns: `frame@[x][y]` is the cell at `(x, y)`.
    closed spec fn view(&self) -> Seq<Seq<T>> {
        Seq::new(self.data@.len(), |i: int| self.data@[i]@)
    }
}

impl<T> Frame<T> {
    /// the width of the frame
    pub closed spec fn spec_width(&self) -> int {
        self.width as int
    }

    /// the height of the frame
    pub closed spec fn spec_height(&self) -> int {
        self.height as int
    }

    /// Both dimensions are positive and the storage is exactly
    /// `width` columns of `height` cells each.
    pub open spec fn wf(&self) -> bool {
        &&& 0 < self.spec_width() <= usize::MAX
        &&& 0 < self.spec_height() <= usize::MAX
        &&& self@.len() == self.spec_width()
        &&& forall|i: int| 0 <= i < self@.len() ==> (#[trigger] self@[i]).len() == self.spec_height()
    }
}

impl<T> Frame<T>
where T: Default + Clone {
    /// Creates a frame of `x` by `y` default-valued cells; a zero dimension
    /// is rejected.
    pub fn new(x: usize, y: usize) -> (r: Result<Frame<T>, FrameError>)
        ensures
            match r {
                Ok(f) => {
                    &&& 0 < x && 0 < y
                    &&& f.wf()
                    &&& f.spec_width() == x
                    &&& f.spec_height() == y
                    &&& forall|i: int, j: int|
                        0 <= i < x && 0 <= j < y ==> call_ensures(T::default, (), #[trigger] f@[i][j])
                },
                Err(e) => (x == 0 || y == 0) && e == FrameError::ZeroDimension,
            },
    {
        if x == 0 || y == 0 {
            return Err(FrameError::ZeroDimension);
        }
        let mut data: Vec<Vec<T>> = Vec::new();
        let mut i: usize = 0;
        while i < x
            invariant
                i <= x,
                data@.len() == i,
                forall|k: int| 0 <= k < i ==> (#[trigger] data@[k])@.len() == y,
                forall|k: int, j: int|
                    0 <= k < i && 0 <= j < y ==> call_ensures(T::default, (), #[trigger] data@[k]@[j]),
            decreases x - i,
        {
            let mut col: Vec<T> = Vec::new();
            let mut j: usize = 0;
            while j < y
                invariant
                    j <= y,
                    col@.len() == j,
                    forall|k: int| 0 <= k < j ==> call_ensures(T::default, (), #[trigger] col@[k]),
                decreases y - j,
            {
                col.push(T::default());
                j += 1;
            }
            data.push(col);
            i += 1;
        }
        Ok(Frame::<T> { data, width: x, height: y })
    }
}

/// Getters / setters for the data in the frame
impl<T> Frame<T> {
    /// the width of the frame
    pub fn width(&self) -> (r: usize)
        ensures
            r == self.spec_width(),
    {
        self.width
    }

    /// the height of the frame
    pub fn height(&self) -> (r: usize)
        ensures
            r == self.spec_height(),
    {
        self.height
    }

    /// the data at (x, y)
    pub fn get(&self, x: usize, y: usize) -> (r: &T)
        requires
            self.wf(),
            x < self.spec_width(),
            y < self.spec_height(),
        ensures
            *r == self@[x as int][y as int],
    {
        proof {
            assert(self@.len() == self.data@.len());
            assert(self@[x as int] == self.data@[x as int]@);
        }
        &self.data[x][y]
    }

    /// store `value` at (x, y)
    pub fn set(&mut self, x: usize, y: usize, value: T)
        requires
            old(self).wf(),
            x < old(self).spec_width(),
            y < old(self).spec_height(),
        ensures
            final(self).wf(),
            final(self).spec_width() == old(self).spec_width(),
            final(self).spec_height() == old(self).spec_height(),
            final(self)@ == old(self)@.update(x as int, old(self)@[x as int].update(y as int, value)),
    {
        proof {
            assert(old(self)@.len() == old(self).data@.len());
            assert(old(self)@[x as int] == old(self).data@[x as int]@);
        }
        let col = &mut self.data[x];
        let cell = &mut col[y];
        *cell = value;
        proof {
            assert(final(self)@ =~~= old(self)@.update(
                x as int,
                old(self)@[x as int].update(y as int, value),
            ));
        }
    }

    /// get a mutable reference to the data at (x, y)
    pub fn get_mut(&mut self, x: usize, y: usize) -> (r: &mut T)
        requires
            old(self).wf(),
            x < old(self).spec_width(),
            y < old(self).spec_height(),
        ensures
            *r == old(self)@[x as int][y as int],
            final(self).spec_width() == old(self).spec_width(),
            final(self).spec_height() == old(self).spec_height(),
            final(self)@ == old(self)@.update(
                x as int,
                old(self)@[x as int].update(y as int, *final(r)),
            ),
    {
        proof {
            assert(old(self)@.len() == old(self).data@.len());
            assert(old(self)@[x as int] == old(self).data@[x as int]@);
        }
        let col = &mut self.data[x];
        &mut col[y]
    }
}

/// A well-formed frame stays well formed when one cell of one column is
/// replaced, as after a write through `get_mut`.
pub proof fn lemma_wf_after_cell_update<T>(before: Frame<T>, after: Frame<T>, x: int, y: int, v: T)
    requires
        before.wf(),
        0 <= x < before.spec_width(),
        0 <= y < before.spec_height(),
        after.spec_width() == before.spec_width(),
        after.spec_height() == before.spec_height(),
        after@ == before@.update(x, before@[x].update(y, v)),
    ensures
        after.wf(),
{
    assert forall|i: int| 0 <= i < after@.len() implies (#[trigger] after@[i]).len()
        == after.spec_height() by {
        assert(after@[i] == before@.update(x, before@[x].update(y, v))[i]);
    }
}

/// Add x and y mod m, wrapping around in either direction.
pub fn add_modulo(x: usize, y: isize, m: usize) -> (r: usize)
    requires
        x < m,
        -(m as int) < y as int,
        (y as int) < m as int,
    ensures
        r < m,
        r == wrap_index(x as int, y as int, m as int),
{
    if y >= 0 {
        let d = y as usize;
        if d < m - x {
            proof {
                lemma_small_mod((x + d) as nat, m as nat);
            }
            x + d
        } else {
            proof {
                lemma_mod_add_multiples_vanish(x as int + d as int - m as int, m as int);
                lemma_small_mod((x + d - m) as nat, m as nat);
            }
            x - (m - d)
        }
    } else {
        // negate without overflowing on isize::MIN
        let d = (-(y + 1)) as usize + 1;
        if d <= x {
            proof {
                lemma_small_mod((x - d) as nat, m as nat);
            }
            x - d
        } else {
            proof {
                lemma_mod_add_multiples_vanish(x as int + y as int, m as int);
                lemma_small_mod((x + m - d) as nat, m as nat);
            }
            x + (m - d)
        }
    }
}

/// Represents a single square in the frame: a read-only view of the
/// surrounding grid, anchored at one in-bounds coordinate.
#[derive(Debug, PartialEq)]
pub struct Square<'a, T> {
    pub frame: &'a Frame<T>,
    pub point: (usize, usize),
}

/// The cell `(dx, dy)` away from `(x, y)` in `frame`, through the toroidal wrap.
pub open spec fn cell_at<T>(frame: &Frame<T>, x: int, y: int, dx: int, dy: int) -> T {
    frame@[wrap_index(x, dx, frame.spec_width())][wrap_index(y, dy, frame.spec_height())]
}

/// The four cells straight out from `(x, y)` at Chebyshev distance `radius`
/// on the cardinal directions: left, right, up, down, in that order.
pub open spec fn ortholinear_at<T>(frame: &Frame<T>, x: int, y: int, radius: int) -> Seq<T> {
    seq![
        cell_at(frame, x, y, -radius, 0),
        cell_at(frame, x, y, radius, 0),
        cell_at(frame, x, y, 0, -radius),
        cell_at(frame, x, y, 0, radius),
    ]
}

/// The square of `frame` anchored at `(x, y)`.
pub open spec fn square_at<'a, T>(frame: &'a Frame<T>, x: usize, y: usize) -> Square<'a, T> {
    Square { frame, point: (x, y) }
}

impl<'a, T> Square<'a, T> {
    /// The anchor lies within the bounds of a well-formed frame.
    pub open spec fn wf(&self) -> bool {
        &&& self.frame.wf()
        &&& self.point.0 < self.frame.spec_width()
        &&& self.point.1 < self.frame.spec_height()
    }

    /// The cell `(i, j)` away from the anchor, through the toroidal wrap.
    pub open spec fn spec_get(&self, i: int, j: int) -> T {
        cell_at(self.frame, self.point.0 as int, self.point.1 as int, i, j)
    }

    /// Return a point relative to the square
    pub fn get(&self, i: isize, j: isize) -> (r: &T)
        requires
            self.wf(),
            -self.frame.spec_width() < i as int,
            (i as int) < self.frame.spec_width(),
            -self.frame.spec_height() < j as int,
            (j as int) < self.frame.spec_height(),
        ensures
            *r == self.spec_get(i as int, j as int),
    {
        let (x, y) = self.point;
        let width = self.frame.width();
        let height = self.frame.height();
        let wrapped_x = add_modulo(x, i, width);
        let wrapped_y = add_modulo(y, j, height);
        self.frame.get(wrapped_x, wrapped_y)
    }

    /// the coordinate this square is anchored at
    pub fn coordinate(&self) -> (r: (usize, usize))
        ensures
            r == self.point,
    {
        self.point
    }
}

impl<'a, T: Copy> Square<'a, T> {
    /// The cells straight out from the anchor at Chebyshev distance `radius`
    /// on the four cardinal directions: left, right, up, down, in that order.
    pub open spec fn spec_ortholinear(&self, radius: int) -> Seq<T> {
        ortholinear_at(self.frame, self.point.0 as int, self.point.1 as int, radius)
    }

    /// Return the values at the four ortholinear offsets at distance `radius`
    pub fn within_ortholinear(&self, radius: usize) -> (r: Vec<T>)
        requires
            self.wf(),
            radius < self.frame.spec_width(),
            radius < self.frame.spec_height(),
            radius <= isize::MAX as usize,
        ensures
            r@ == self.spec_ortholinear(radius as int),
    {
        let d = radius as isize;
        let mut values: Vec<T> = Vec::new();
        values.push(*self.get(-d, 0));
        values.push(*self.get(d, 0));
        values.push(*self.get(0, -d));
        values.push(*self.get(0, d));
        proof {
            assert(values@ =~= self.spec_ortholinear(radius as int));
        }
        values
    }
}

impl<T> Frame<T> {
    /// return the next frame of the simulation advancing the simulation using
    /// a step function that computes the value for any cell given a certain
    /// board
    pub fn next_frame<'a, F: Fn(Square<'a, T>) -> T>(&'a self, step: F) -> (r: Frame<T>)
        requires
            self.wf(),
            forall|sq: Square<'a, T>|
                sq.wf() && sq.frame == self ==> #[trigger] call_requires(step, (sq,)),
        ensures
            r.wf(),
            r.spec_width() == self.spec_width(),
            r.spec_height() == self.spec_height(),
            forall|x: usize, y: usize|
                x < self.spec_width() && y < self.spec_height() ==> #[trigger] call_ensures(
                    step,
                    (square_at(self, x, y),),
                    r@[x as int][y as int],
                ),
    {
        let width = self.width();
        let height = self.height();
        let mut data: Vec<Vec<T>> = Vec::new();
        let mut x: usize = 0;
        while x < width
            invariant
                self.wf(),
                width == self.spec_width(),
                height == self.spec_height(),
                forall|sq: Square<'a, T>|
                    sq.wf() && sq.frame == self ==> #[trigger] call_requires(step, (sq,)),
                x <= width,
                data@.len() == x,
                forall|i: int| 0 <= i < x ==> (#[trigger] data@[i])@.len() == height,
                forall|i: usize, j: usize|
                    i < x && j < height ==> call_ensures(
                        step,
                        (square_at(self, i, j),),
                        #[trigger] data@[i as int]@[j as int],
                    ),
            decreases width - x,
        {
            let mut col: Vec<T> = Vec::new();
            let mut y: usize = 0;
            while y < height
                invariant
                    self.wf(),
                    width == self.spec_width(),
                    height == self.spec_height(),
                    forall|sq: Square<'a, T>|
                        sq.wf() && sq.frame == self ==> #[trigger] call_requires(step, (sq,)),
                    x < width,
                    y <= height,
                    col@.len() == y,
                    forall|j: usize|
                        j < y ==> call_ensures(
                            step,
                            (square_at(self, x, j),),
                            #[trigger] col@[j as int],
                        ),
                decreases height - y,
            {
                let sq = Square { frame: self, point: (x, y) };
                col.push(step(sq));
                y += 1;
            }
            data.push(col);
            x += 1;
        }
        let ghost columns: Seq<Vec<T>> = data@;
        let result = Frame::<T> { data, width, height };
        proof {
            assert(result@.len() == columns.len());
            assert forall|i: usize, j: usize| i < width && j < height implies call_ensures(
                step,
                (square_at(self, i, j),),
                result@[i as int][j as int],
            ) by {
                assert(result@[i as int] == columns[i as int]@);
            }
            assert(result.wf()) by {
                assert forall|i: int| 0 <= i < result@.len() implies (#[trigger] result@[i]).len()
                    == result.spec_height() by {
                    assert(result@[i] == columns[i]@);
                }
            }
        }
        result
    }
}

/// A lazy, restartable walk over a Frame, yielding each coordinate and the
/// cell stored there: for each column `x` ascending, each row `y` ascending.
#[derive(Debug, PartialEq)]
pub struct FrameIterator<'a, T> {
    pub frame: &'a Frame<T>,
    pub next_index: (usize, usize),
}

impl<'a, T> FrameIterator<'a, T> {
    /// The walk stands somewhere over a well-formed frame: at an in-bounds
    /// coordinate, or just past the last column with the row reset to zero.
    pub open spec fn wf(&self) -> bool {
        &&& self.frame.wf()
        &&& (self.next_index.0 < self.frame.spec_width() && self.next_index.1
            < self.frame.spec_height()) || (self.next_index.0 == self.frame.spec_width()
            && self.next_index.1 == 0)
    }

    /// The coordinate visited after `(x, y)`: the next row of the column, or
    /// the head of the next column once the row runs out.
    pub open spec fn spec_advance(&self, x: usize, y: usize) -> (usize, usize) {
        if y as int + 1 < self.frame.spec_height() {
            (x, (y + 1) as usize)
        } else {
            ((x + 1) as usize, 0usize)
        }
    }

    /// Yield the cell the walk stands at and step forward, or return `None`
    /// exactly when every cell has been visited.
    pub fn next(&mut self) -> (r: Option<(usize, usize, &'a T)>)
        requires
            old(self).wf(),
        ensures
            final(self).frame == old(self).frame,
            final(self).wf(),
            match r {
                Some(t) => {
                    &&& (old(self).next_index.0 as int) < old(self).frame.spec_width()
                    &&& t.0 == old(self).next_index.0
                    &&& t.1 == old(self).next_index.1
                    &&& *t.2 == old(self).frame@[t.0 as int][t.1 as int]
                    &&& final(self).next_index == old(self).spec_advance(t.0, t.1)
                },
                None => {
                    &&& old(self).next_index.0 == old(self).frame.spec_width()
                    &&& final(self).next_index == old(self).next_index
                },
            },
    {
        let (x, y) = self.next_index;
        let grid = self.frame;
        if x < grid.width() {
            let val = grid.get(x, y);
            self.next_index = if y + 1 < grid.height() {
                (x, y + 1)
            } else {
                (x + 1, 0)
            };
            Some((x, y, val))
        } else {
            None
        }
    }
}

impl<T> Frame<T> {
    /// Returns an iterator over tuples of coordinate and the element at that
    /// coordinate
    pub fn square_iterator<'a>(&'a self) -> (r: FrameIterator<'a, T>)
        requires
            self.wf(),
        ensures
            r.frame == self,
            r.next_index == (0usize, 0usize),
            r.wf(),
    {
        FrameIterator { frame: self, next_index: (0, 0) }
    }
}

/// Determinism of a generation step: two grids whose every cell was produced
/// by one deterministic step function from the same source grid are equal.
pub proof fn lemma_advance_deterministic<T>(
    src: Frame<T>,
    step: spec_fn(Frame<T>, int, int) -> T,
    first: Frame<T>,
    second: Frame<T>,
)
    requires
        first@.len() == src@.len(),
        second@.len() == src@.len(),
        forall|x: int| 0 <= x < src@.len() ==> (#[trigger] first@[x]).len() == src@[x].len(),
        forall|x: int| 0 <= x < src@.len() ==> (#[trigger] second@[x]).len() == src@[x].len(),
        forall|x: int, y: int|
            0 <= x < src@.len() && 0 <= y < src@[x].len() ==> #[trigger] first@[x][y] == step(
                src,
                x,
                y,
            ),
        forall|x: int, y: int|
            0 <= x < src@.len() && 0 <= y < src@[x].len() ==> #[trigger] second@[x][y] == step(
                src,
                x,
                y,
            ),
    ensures
        first@ == second@,
{
    assert forall|x: int| 0 <= x < src@.len() implies first@[x] =~= second@[x] by {}
    assert(first@ =~~= second@);
}

/// A view's zero offset resolves to the anchor cell itself.
pub proof fn lemma_offset_zero<'a, T>(sq: Square<'a, T>)
    requires
        sq.wf(),
    ensures
        sq.spec_get(0, 0) == sq.frame@[sq.point.0 as int][sq.point.1 as int],
{
    lemma_small_mod(sq.point.0 as nat, sq.frame.spec_width() as nat);
    lemma_small_mod(sq.point.1 as nat, sq.frame.spec_height() as nat);
}

/// Toroidal wrap at the low edge: one step left of column 0 is the last column.
pub proof fn lemma_offset_wraps<'a, T>(sq: Square<'a, T>)
    requires
        sq.wf(),
        sq.point.0 == 0,
    ensures
        sq.spec_get(-1, 0) == sq.frame@[sq.frame.spec_width() - 1][sq.point.1 as int],
{
    let w = sq.frame.spec_width();
    lemma_mod_add_multiples_vanish(-1, w);
    lemma_small_mod((w - 1) as nat, w as nat);
    lemma_small_mod(sq.point.1 as nat, sq.frame.spec_height() as nat);
}

} // verus!
