use vstd::prelude::*;

verus! {

/// Why a grid could not be built.
#[derive(Clone, Copy, Debug, PartialEq, Eq, Structural)]
pub enum GridError {
    /// Width or height is at most one.
    InvalidDimensions,
    /// The number of values given is not `width * height`.
    LengthMismatch,
    /// Every raw sample has the same value, so the samples cannot be rescaled to `[0, 1]`.
    DegenerateNoiseRange,
}

/// Both sides of a grid are at least two cells long.
pub open spec fn valid_dims(width: int, height: int) -> bool {
    width >= 2 && height >= 2
}

/// Every cell of a `width` by `height` grid can be named by a `u32` vertex index.
pub open spec fn indexable(width: int, height: int) -> bool {
    width >= 0 && height >= 0 && width * height <= u32::MAX
}

/// Row-major position of cell `(x, y)` in a grid of the given width.
pub open spec fn cell_index(width: int, x: int, y: int) -> int {
    x + y * width
}

/// A row-major two-dimensional array of values, at least two cells wide and tall.
pub struct Grid<T> {
    vals: Vec<T>,
    width: u32,
    height: u32,
}

impl<T: Copy> Grid<T> {
    pub closed spec fn spec_width(&self) -> nat {
        self.width as nat
    }

    pub closed spec fn spec_height(&self) -> nat {
        self.height as nat
    }

    /// The values in row-major order: cell `(x, y)` is at `x + y * width`.
    pub closed spec fn cells(&self) -> Seq<T> {
        self.vals@
    }

    pub open spec fn wf(&self) -> bool {
        &&& valid_dims(self.spec_width() as int, self.spec_height() as int)
        &&& indexable(self.spec_width() as int, self.spec_height() as int)
        &&& self.cells().len() == self.spec_width() * self.spec_height()
    }

    /// The value of cell `(x, y)`.
    pub open spec fn cell(&self, x: int, y: int) -> T {
        self.cells()[cell_index(self.spec_width() as int, x, y)]
    }

    /// A grid of the given size with every cell set to `fill`.
    pub fn new(width: u32, height: u32, fill: T) -> (r: Result<Grid<T>, GridError>)
        requires
            indexable(width as int, height as int),
        ensures
            r is Err <==> !valid_dims(width as int, height as int),
            r is Err ==> r->Err_0 == GridError::InvalidDimensions,
            r matches Ok(g) ==> {
                &&& g.wf()
                &&& g.spec_width() == width
                &&& g.spec_height() == height
                &&& forall|i: int| 0 <= i < g.cells().len() ==> g.cells()[i] == fill
            },
    {
        if width <= 1 || height <= 1 {
            return Err(GridError::InvalidDimensions);
        }
        let n: usize = width as usize * height as usize;
        let mut vals: Vec<T> = Vec::with_capacity(n);
        let mut i: usize = 0;
        while i < n
            invariant
                i <= n,
                vals@.len() == i,
                forall|j: int| 0 <= j < i ==> vals@[j] == fill,
            decreases n - i,
        {
            vals.push(fill);
            i = i + 1;
        }
        Ok(Grid { vals, width, height })
    }

    /// A grid that takes `vals` as its cells in row-major order.
    pub fn from_vec(vals: Vec<T>, width: u32, height: u32) -> (r: Result<Grid<T>, GridError>)
        requires
            indexable(width as int, height as int),
        ensures
            !valid_dims(width as int, height as int) ==> r == Err::<Grid<T>, GridError>(
                GridError::InvalidDimensions,
            ),
            valid_dims(width as int, height as int) && vals@.len() != width * height ==> r
                == Err::<Grid<T>, GridError>(GridError::LengthMismatch),
            r is Ok <==> valid_dims(width as int, height as int) && vals@.len() == width * height,
            r matches Ok(g) ==> {
                &&& g.wf()
                &&& g.spec_width() == width
                &&& g.spec_height() == height
                &&& g.cells() == vals@
            },
    {
        if width <= 1 || height <= 1 {
            return Err(GridError::InvalidDimensions);
        }
        if vals.len() != width as usize * height as usize {
            return Err(GridError::LengthMismatch);
        }
        Ok(Grid { vals, width, height })
    }

    /// A grid whose cell `(x, y)` is `sample(x, y)`; cells are sampled row by row,
    /// `x` running fastest.
    pub fn from_fn<F: Fn(u32, u32) -> T>(width: u32, height: u32, sample: F) -> (r: Result<
        Grid<T>,
        GridError,
    >)
        requires
            indexable(width as int, height as int),
            forall|x: u32, y: u32| x < width && y < height ==> sample.requires((x, y)),
        ensures
            r is Err <==> !valid_dims(width as int, height as int),
            r is Err ==> r->Err_0 == GridError::InvalidDimensions,
            r matches Ok(g) ==> {
                &&& g.wf()
                &&& g.spec_width() == width
                &&& g.spec_height() == height
                &&& forall|x: u32, y: u32|
                    x < width && y < height ==> sample.ensures((x, y), #[trigger] g.cell(x as int, y as int))
            },
    {
        if width <= 1 || height <= 1 {
            return Err(GridError::InvalidDimensions);
        }
        let mut vals: Vec<T> = Vec::with_capacity(width as usize * height as usize);
        let mut y: u32 = 0;
        while y < height
            invariant
                valid_dims(width as int, height as int),
                indexable(width as int, height as int),
                y <= height,
                vals@.len() == y * width,
                forall|x: u32, y: u32| x < width && y < height ==> sample.requires((x, y)),
                forall|cx: u32, cy: u32|
                    cx < width && cy < y ==> sample.ensures(
                        (cx, cy),
                        #[trigger] vals@[cell_index(width as int, cx as int, cy as int)],
                    ),
            decreases height - y,
        {
            let mut x: u32 = 0;
            while x < width
                invariant
                    valid_dims(width as int, height as int),
                    indexable(width as int, height as int),
                    y < height,
                    x <= width,
                    vals@.len() == y * width + x,
                    forall|x: u32, y: u32| x < width && y < height ==> sample.requires((x, y)),
                    forall|cx: u32, cy: u32|
                        (cx < width && cy < y) || (cx < x && cy == y) ==> sample.ensures(
                            (cx, cy),
                            #[trigger] vals@[cell_index(width as int, cx as int, cy as int)],
                        ),
                decreases width - x,
            {
                let v = sample(x, y);
                let ghost before = vals@;
                vals.push(v);
                proof {
                    assert forall|cx: u32, cy: u32|
                        (cx < width && cy < y) || (cx < x + 1 && cy == y) implies sample.ensures(
                        (cx, cy),
                        #[trigger] vals@[cell_index(width as int, cx as int, cy as int)],
                    ) by {
                        if cx != x || cy != y {
                            lemma_row_major_before(width as int, cx as int, cy as int, x as int, y as int);
                            assert(vals@[cell_index(width as int, cx as int, cy as int)] == before[cell_index(width as int, cx as int, cy as int)]);
                        }
                    }
                }
                x = x + 1;
            }
            proof {
                assert((y + 1) * width == y * width + width) by (nonlinear_arith);
            }
            y = y + 1;
        }
        proof {
            assert(height * width == width * height) by (nonlinear_arith);
        }
        Ok(Grid { vals, width, height })
    }

    pub fn width(&self) -> (r: u32)
        ensures
            r == self.spec_width(),
    {
        self.width
    }

    pub fn height(&self) -> (r: u32)
        ensures
            r == self.spec_height(),
    {
        self.height
    }

    /// The cells in row-major order.
    pub fn as_slice(&self) -> (r: &[T])
        ensures
            r@ == self.cells(),
    {
        self.vals.as_slice()
    }

    /// The value of cell `(x, y)`.
    pub fn get(&self, x: u32, y: u32) -> (r: T)
        requires
            self.wf(),
            x < self.spec_width(),
            y < self.spec_height(),
        ensures
            r == self.cell(x as int, y as int),
    {
        proof {
            lemma_cell_index_bounds(
                self.spec_width() as int,
                self.spec_height() as int,
                x as int,
                y as int,
            );
        }
        self.vals[x as usize + y as usize * self.width as usize]
    }

    /// A grid of the same size whose every cell is `f` of the matching cell of `self`.
    pub fn map<U: Copy, F: Fn(T) -> U>(&self, f: F) -> (r: Grid<U>)
        requires
            self.wf(),
            forall|v: T| f.requires((v,)),
        ensures
            r.wf(),
            r.spec_width() == self.spec_width(),
            r.spec_height() == self.spec_height(),
            r.cells().len() == self.cells().len(),
            forall|i: int|
                0 <= i < self.cells().len() ==> f.ensures((self.cells()[i],), #[trigger] r.cells()[i]),
    {
        let n = self.vals.len();
        let mut out: Vec<U> = Vec::with_capacity(n);
        let mut i: usize = 0;
        while i < n
            invariant
                n == self.cells().len(),
                i <= n,
                out@.len() == i,
                forall|v: T| f.requires((v,)),
                forall|j: int| 0 <= j < i ==> f.ensures((self.cells()[j],), #[trigger] out@[j]),
            decreases n - i,
        {
            let u = f(self.vals[i]);
            out.push(u);
            i = i + 1;
        }
        Grid { vals: out, width: self.width, height: self.height }
    }
}

/// Cells come in row-major order: one on an earlier row, or earlier on the
/// same row, has a smaller position.
pub proof fn lemma_row_major_before(width: int, cx: int, cy: int, x: int, y: int)
    requires
        0 <= cx < width,
        0 <= cy,
        0 <= x,
        cy < y || (cy == y && cx < x),
    ensures
        0 <= cell_index(width, cx, cy) < cell_index(width, x, y),
{
    assert(0 <= cx + cy * width < x + y * width) by (nonlinear_arith)
        requires
            0 <= cx < width,
            0 <= cy,
            0 <= x,
            cy < y || (cy == y && cx < x),
    ;
}

/// A cell inside the grid has a row-major position inside the grid, and no other
/// cell shares it.
pub proof fn lemma_cell_index_bounds(width: int, height: int, x: int, y: int)
    requires
        0 <= x < width,
        0 <= y < height,
    ensures
        0 <= cell_index(width, x, y) < width * height,
        cell_index(width, x, y) + 1 <= width * height,
        cell_index(width, x, y) + width == cell_index(width, x, y + 1),
{
    assert(y * width + x < width * height) by (nonlinear_arith)
        requires
            0 <= x < width,
            0 <= y < height,
    ;
    assert(y * width >= 0) by (nonlinear_arith)
        requires
            0 <= y,
            0 <= x < width,
    ;
    assert((y + 1) * width == y * width + width) by (nonlinear_arith);
}

} // verus!
