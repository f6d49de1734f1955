use vstd::prelude::*;
use vstd::arithmetic::div_mod::lemma_fundamental_div_mod_converse;
use crate::grid::{
    Grid, cell_index, indexable, valid_dims, lemma_cell_index_bounds, lemma_row_major_before,
};

verus! {

/// A vertex of the mesh in grid space: its cell `(x, y)` and the height of that cell.
#[derive(Debug)]
pub struct GridVertex<T> {
    pub x: u32,
    pub y: u32,
    pub height: T,
}

/// The four vertex indices of one quad of the grid.
#[derive(Clone, Copy, Debug, PartialEq, Eq, Structural)]
pub struct QuadCorners {
    /// `i1`, the vertex at the quad's own cell.
    pub bottom_left: u32,
    /// `i2 = i1 + width`.
    pub top_left: u32,
    /// `i3 = i1 + 1`.
    pub bottom_right: u32,
    /// `i4 = i1 + width + 1`.
    pub top_right: u32,
}

/// The corners of the quad whose bottom-left vertex is `i1`.
pub open spec fn corners_at(width: int, i1: int) -> QuadCorners {
    QuadCorners {
        bottom_left: i1 as u32,
        top_left: (i1 + width) as u32,
        bottom_right: (i1 + 1) as u32,
        top_right: (i1 + width + 1) as u32,
    }
}

/// Number of quads in a grid of the given size.
pub open spec fn quad_count(width: int, height: int) -> int {
    (width - 1) * (height - 1)
}

/// Length of the index list of a grid of the given size: two triangles of
/// three indices per quad.
pub open spec fn index_count(width: int, height: int) -> int {
    6 * quad_count(width, height)
}

/// Vertex index of the bottom-left corner of quad number `q`, quads counted in
/// row-major order (`width - 1` quads per row).
pub open spec fn quad_origin(width: int, q: int) -> int {
    cell_index(width, q % (width - 1), q / (width - 1))
}

/// Entry `k` of the index list. With `i1` the bottom-left corner of quad
/// `k / 6`, `i2 = i1 + width` its top-left, `i3 = i1 + 1` its bottom-right and
/// `i4 = i1 + width + 1` its top-right corner, the quad contributes the
/// triangles `(i1, i2, i3)` and `(i2, i4, i3)`, in that order.
pub open spec fn triangle_index(width: int, k: int) -> int {
    corner_entry(width, quad_origin(width, k / 6), k % 6)
}

/// Corner `j` of a quad with bottom-left corner `i1`, in the order the index list takes them.
pub open spec fn corner_entry(width: int, i1: int, j: int) -> int {
    if j == 0 {
        i1
    } else if j == 1 {
        i1 + width
    } else if j == 2 {
        i1 + 1
    } else if j == 3 {
        i1 + width
    } else if j == 4 {
        i1 + width + 1
    } else {
        i1 + 1
    }
}

/// The vertex list of a grid: entry `i` is cell `(i % width, i / width)` with its height.
pub open spec fn vertex_list<T: Copy>(g: Grid<T>) -> Seq<GridVertex<T>> {
    let w = g.spec_width() as int;
    Seq::new(
        g.cells().len(),
        |i: int| GridVertex { x: (i % w) as u32, y: (i / w) as u32, height: g.cells()[i] },
    )
}

/// The index list of a `width` by `height` grid.
pub open spec fn index_list(width: int, height: int) -> Seq<u32> {
    Seq::new(index_count(width, height) as nat, |k: int| triangle_index(width, k) as u32)
}

/// Quad number `x + y * (width - 1)` has its bottom-left corner at cell `(x, y)`.
pub proof fn lemma_quad_origin(width: int, x: int, y: int)
    requires
        width >= 2,
        0 <= x < width - 1,
        0 <= y,
    ensures
        quad_origin(width, x + y * (width - 1)) == cell_index(width, x, y),
{
    lemma_fundamental_div_mod_converse(x + y * (width - 1), width - 1, y, x);
}

/// Entry `6 * q + j` of the index list is corner `j` of quad `q`.
pub proof fn lemma_triangle_entry(width: int, q: int, j: int)
    requires
        width >= 2,
        0 <= q,
        0 <= j < 6,
    ensures
        (6 * q + j) / 6 == q,
        (6 * q + j) % 6 == j,
{
    lemma_fundamental_div_mod_converse(6 * q + j, 6, q, j);
}

/// Every entry of the index list names a vertex of the grid.
pub proof fn lemma_triangle_index_bounds(width: int, height: int, k: int)
    requires
        valid_dims(width, height),
        0 <= k < index_count(width, height),
    ensures
        0 <= triangle_index(width, k) < width * height,
{
    let q = k / 6;
    let qx = q % (width - 1);
    let qy = q / (width - 1);
    assert(0 <= q < quad_count(width, height));
    assert(q == qx + qy * (width - 1)) by {
        vstd::arithmetic::div_mod::lemma_fundamental_div_mod(q, width - 1);
        vstd::arithmetic::mul::lemma_mul_is_commutative(width - 1, qy);
    }
    assert(0 <= qx < width - 1);
    assert(0 <= qy < height - 1) by (nonlinear_arith)
        requires
            q == qx + qy * (width - 1),
            0 <= q < (width - 1) * (height - 1),
            0 <= qx < width - 1,
            width >= 2,
            qy == q / (width - 1),
    ;
    assert(0 <= qx + qy * width && qx + qy * width + width + 1 < width * height) by (nonlinear_arith)
        requires
            0 <= qx < width - 1,
            0 <= qy < height - 1,
            width >= 2,
    ;
}

impl<T: Copy> Grid<T> {
    /// The triangle index list: for each quad in row-major order, the triangles
    /// `(i1, i2, i3)` and `(i2, i4, i3)` (see `triangle_index`).
    pub fn gen_indices(&self) -> (r: Vec<u32>)
        requires
            self.wf(),
        ensures
            r@ == index_list(self.spec_width() as int, self.spec_height() as int),
            r@.len() == 6 * (self.spec_width() - 1) * (self.spec_height() - 1),
            forall|k: int|
                0 <= k < r@.len() ==> #[trigger] r@[k] < self.spec_width() * self.spec_height(),
    {
        let width = self.width();
        let height = self.height();
        let ghost w = width as int;
        let ghost h = height as int;
        let mut out: Vec<u32> = Vec::new();
        let mut y: u32 = 0;
        while y < height - 1
            invariant
                w == width,
                h == height,
                valid_dims(w, h),
                indexable(w, h),
                y <= h - 1,
                out@.len() == 6 * (y * (w - 1)),
                forall|k: int| 0 <= k < out@.len() ==> #[trigger] out@[k] == triangle_index(w, k),
            decreases height - y,
        {
            let mut x: u32 = 0;
            while x < width - 1
                invariant
                    w == width,
                    h == height,
                    valid_dims(w, h),
                    indexable(w, h),
                    y < h - 1,
                    x <= w - 1,
                    out@.len() == 6 * (x + y * (w - 1)),
                    forall|k: int| 0 <= k < out@.len() ==> #[trigger] out@[k] == triangle_index(w, k),
                decreases width - x,
            {
                let ghost q = x + y * (w - 1);
                proof {
                    lemma_cell_index_bounds(w, h, x as int, y as int);
                    lemma_cell_index_bounds(w, h, x + 1, y + 1);
                    assert(y * w >= 0) by (nonlinear_arith)
                        requires
                            y >= 0,
                            w >= 2,
                    ;
                    lemma_quad_origin(w, x as int, y as int);
                    assert(y * (w - 1) >= 0) by (nonlinear_arith)
                        requires
                            y >= 0,
                            w >= 2,
                    ;
                    assert forall|j: int| 0 <= j < 6 implies triangle_index(w, 6 * q + j)
                        == #[trigger] corner_entry(w, cell_index(w, x as int, y as int), j) by {
                        lemma_triangle_entry(w, q, j);
                    }
                }
                let start: u32 = x + y * width;
                out.push(start);
                out.push(start + width);
                out.push(start + 1);
                out.push(start + width);
                out.push(start + width + 1);
                out.push(start + 1);
                proof {
                    assert forall|k: int| 0 <= k < out@.len() implies #[trigger] out@[k]
                        == triangle_index(w, k) by {
                        if k >= 6 * q {
                            assert(corner_entry(w, cell_index(w, x as int, y as int), k - 6 * q)
                                == triangle_index(w, 6 * q + (k - 6 * q)));
                        }
                    }
                }
                x = x + 1;
            }
            proof {
                assert((y + 1) * (w - 1) == y * (w - 1) + (w - 1)) by (nonlinear_arith);
            }
            y = y + 1;
        }
        proof {
            assert forall|k: int| 0 <= k < out@.len() implies #[trigger] out@[k] < w * h by {
                lemma_triangle_index_bounds(w, h, k);
            }
            assert(out@ =~= index_list(w, h)) by {
                assert forall|k: int| 0 <= k < out@.len() implies out@[k] == index_list(w, h)[k] by {
                    lemma_triangle_index_bounds(w, h, k);
                }
            }
            assert(6 * ((h - 1) * (w - 1)) == 6 * (w - 1) * (h - 1)) by (nonlinear_arith);
        }
        out
    }
}

/// A `width` by `height` grid gives a mesh of `width * height` vertices and
/// `6 * (width - 1) * (height - 1)` indices, and every index names one of those vertices.
pub proof fn lemma_mesh_shape<T: Copy>(g: Grid<T>)
    requires
        g.wf(),
    ensures
        vertex_list(g).len() == g.spec_width() * g.spec_height(),
        index_list(g.spec_width() as int, g.spec_height() as int).len() == 6 * (g.spec_width() - 1)
            * (g.spec_height() - 1),
        forall|k: int|
            0 <= k < index_list(g.spec_width() as int, g.spec_height() as int).len() ==> (#[trigger] index_list(
                g.spec_width() as int,
                g.spec_height() as int,
            )[k] as int) < vertex_list(g).len(),
{
    let w = g.spec_width() as int;
    let h = g.spec_height() as int;
    assert(6 * quad_count(w, h) == 6 * (w - 1) * (h - 1)) by (nonlinear_arith);
    assert forall|k: int| 0 <= k < index_list(w, h).len() implies (#[trigger] index_list(w, h)[k] as int)
        < vertex_list(g).len() by {
        lemma_triangle_index_bounds(w, h, k);
    }
}

/// Building the mesh of one grid twice gives the same vertices and the same indices.
pub proof fn lemma_mesh_idempotent<T: Copy>(
    g: Grid<T>,
    first_vertices: Seq<GridVertex<T>>,
    first_indices: Seq<u32>,
    second_vertices: Seq<GridVertex<T>>,
    second_indices: Seq<u32>,
)
    requires
        g.wf(),
        first_vertices == vertex_list(g),
        first_indices == index_list(g.spec_width() as int, g.spec_height() as int),
        second_vertices == vertex_list(g),
        second_indices == index_list(g.spec_width() as int, g.spec_height() as int),
    ensures
        first_vertices == second_vertices,
        first_indices == second_indices,
{
}

impl<T: Copy> Grid<T> {
    /// One vertex per cell, in row-major order: the vertex of cell `(x, y)` is at
    /// `x + y * width` and carries that cell's height.
    pub fn gen_vertices(&self) -> (r: Vec<GridVertex<T>>)
        requires
            self.wf(),
        ensures
            r@ == vertex_list(*self),
            r@.len() == self.spec_width() * self.spec_height(),
            forall|x: u32, y: u32|
                x < self.spec_width() && y < self.spec_height() ==> #[trigger] r@[cell_index(
                    self.spec_width() as int,
                    x as int,
                    y as int,
                )] == (GridVertex { x, y, height: self.cell(x as int, y as int) }),
    {
        let width = self.width();
        let height = self.height();
        let ghost w = width as int;
        let ghost h = height as int;
        let mut out: Vec<GridVertex<T>> = Vec::with_capacity(width as usize * height as usize);
        let mut y: u32 = 0;
        while y < height
            invariant
                w == width,
                h == height,
                self.wf(),
                w == self.spec_width(),
                h == self.spec_height(),
                y <= h,
                out@.len() == y * w,
                forall|cx: u32, cy: u32|
                    cx < w && cy < y ==> #[trigger] out@[cell_index(w, cx as int, cy as int)] == (
                    GridVertex { x: cx, y: cy, height: self.cell(cx as int, cy as int) }),
            decreases height - y,
        {
            let mut x: u32 = 0;
            while x < width
                invariant
                    w == width,
                    h == height,
                    self.wf(),
                    w == self.spec_width(),
                    h == self.spec_height(),
                    y < h,
                    x <= w,
                    out@.len() == y * w + x,
                    forall|cx: u32, cy: u32|
                        (cx < w && cy < y) || (cx < x && cy == y) ==> #[trigger] out@[cell_index(
                            w,
                            cx as int,
                            cy as int,
                        )] == (GridVertex { x: cx, y: cy, height: self.cell(cx as int, cy as int) }),
                decreases width - x,
            {
                let v = GridVertex { x, y, height: self.get(x, y) };
                let ghost before = out@;
                out.push(v);
                proof {
                    assert forall|cx: u32, cy: u32| (cx < w && cy < y) || (cx < x + 1 && cy == y) implies #[trigger] out@[cell_index(
                        w,
                        cx as int,
                        cy as int,
                    )] == (GridVertex { x: cx, y: cy, height: self.cell(cx as int, cy as int) }) by {
                        if cx != x || cy != y {
                            lemma_row_major_before(w, cx as int, cy as int, x as int, y as int);
                            assert(out@[cell_index(w, cx as int, cy as int)] == before[cell_index(w, cx as int, cy as int)]);
                        }
                    }
                }
                x = x + 1;
            }
            proof {
                assert((y + 1) * w == y * w + w) by (nonlinear_arith);
            }
            y = y + 1;
        }
        proof {
            assert(h * w == w * h) by (nonlinear_arith);
            assert forall|i: int| 0 <= i < out@.len() implies out@[i] == vertex_list(*self)[i] by {
                let x = i % w;
                let y = i / w;
                vstd::arithmetic::div_mod::lemma_fundamental_div_mod(i, w);
                vstd::arithmetic::mul::lemma_mul_is_commutative(w, y);
                assert(0 <= y < h) by (nonlinear_arith)
                    requires
                        i == x + y * w,
                        0 <= x < w,
                        0 <= i < w * h,
                        w >= 2,
                ;
                assert(out@[cell_index(w, (x as u32) as int, (y as u32) as int)] == (GridVertex {
                    x: x as u32,
                    y: y as u32,
                    height: self.cell(x, y),
                }));
            }
            assert(out@ =~= vertex_list(*self));
        }
        out
    }

    /// The corners of every quad, quads in row-major order: entry `x + y * (width - 1)`
    /// belongs to the quad whose bottom-left vertex is cell `(x, y)`.
    pub fn gen_quads(&self) -> (r: Vec<QuadCorners>)
        requires
            self.wf(),
        ensures
            r@.len() == quad_count(self.spec_width() as int, self.spec_height() as int),
            forall|q: int|
                0 <= q < r@.len() ==> #[trigger] r@[q] == corners_at(
                    self.spec_width() as int,
                    quad_origin(self.spec_width() as int, q),
                ),
    {
        let width = self.width();
        let height = self.height();
        let ghost w = width as int;
        let ghost h = height as int;
        let mut out: Vec<QuadCorners> = Vec::new();
        let mut y: u32 = 0;
        while y < height - 1
            invariant
                w == width,
                h == height,
                valid_dims(w, h),
                indexable(w, h),
                y <= h - 1,
                out@.len() == y * (w - 1),
                forall|q: int| 0 <= q < out@.len() ==> #[trigger] out@[q] == corners_at(w, quad_origin(w, q)),
            decreases height - y,
        {
            let mut x: u32 = 0;
            while x < width - 1
                invariant
                    w == width,
                    h == height,
                    valid_dims(w, h),
                    indexable(w, h),
                    y < h - 1,
                    x <= w - 1,
                    out@.len() == x + y * (w - 1),
                    forall|q: int| 0 <= q < out@.len() ==> #[trigger] out@[q] == corners_at(w, quad_origin(w, q)),
                decreases width - x,
            {
                proof {
                    lemma_cell_index_bounds(w, h, x as int, y as int);
                    lemma_cell_index_bounds(w, h, x + 1, y + 1);
                    lemma_quad_origin(w, x as int, y as int);
                    assert(y * w >= 0) by (nonlinear_arith)
                        requires
                            y >= 0,
                            w >= 2,
                    ;
                }
                let start: u32 = x + y * width;
                out.push(
                    QuadCorners {
                        bottom_left: start,
                        top_left: start + width,
                        bottom_right: start + 1,
                        top_right: start + width + 1,
                    },
                );
                x = x + 1;
            }
            proof {
                assert((y + 1) * (w - 1) == y * (w - 1) + (w - 1)) by (nonlinear_arith);
            }
            y = y + 1;
        }
        proof {
            assert((h - 1) * (w - 1) == (w - 1) * (h - 1)) by (nonlinear_arith);
        }
        out
    }
}

} // verus!
