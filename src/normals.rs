use vstd::prelude::*;
use crate::grid::{Grid, cell_index, indexable, valid_dims, lemma_cell_index_bounds};

verus! {

/// Weight that quad `(qx, qy)` gives its vertex at cell `(x, y)` when normals are
/// averaged: the bottom-left and top-right corners lie in one triangle of the quad
/// (weight 1), the top-left and bottom-right corners on its diagonal lie in both
/// (weight 2); other vertices get nothing.
pub open spec fn quad_weight(qx: int, qy: int, x: int, y: int) -> int {
    if x == qx && y == qy {
        1
    } else if x == qx && y == qy + 1 {
        2
    } else if x == qx + 1 && y == qy {
        2
    } else if x == qx + 1 && y == qy + 1 {
        1
    } else {
        0
    }
}

/// `(qx, qy)` is a quad of a `width` by `height` grid.
pub open spec fn is_quad(width: int, height: int, qx: int, qy: int) -> bool {
    0 <= qx < width - 1 && 0 <= qy < height - 1
}

/// Total weight of the vertex at cell `(x, y)`: the sum of `quad_weight` over the
/// quads of the grid. Only the four quads that have this vertex as a corner add to it.
pub open spec fn normal_weight(width: int, height: int, x: int, y: int) -> int {
    (if is_quad(width, height, x, y) { 1int } else { 0 })
    + (if is_quad(width, height, x, y - 1) { 2int } else { 0 })
    + (if is_quad(width, height, x - 1, y) { 2int } else { 0 })
    + (if is_quad(width, height, x - 1, y - 1) { 1int } else { 0 })
}

/// Quad `(qx, qy)` comes before quad `(cx, cy)` in row-major order.
spec fn quad_before(qx: int, qy: int, cx: int, cy: int) -> bool {
    qy < cy || (qy == cy && qx < cx)
}

/// `normal_weight` counting only the quads before `(cx, cy)`.
spec fn weight_before(width: int, height: int, x: int, y: int, cx: int, cy: int) -> int {
    (if is_quad(width, height, x, y) && quad_before(x, y, cx, cy) { 1int } else { 0 })
    + (if is_quad(width, height, x, y - 1) && quad_before(x, y - 1, cx, cy) { 2int } else { 0 })
    + (if is_quad(width, height, x - 1, y) && quad_before(x - 1, y, cx, cy) { 2int } else { 0 })
    + (if is_quad(width, height, x - 1, y - 1) && quad_before(x - 1, y - 1, cx, cy) { 1int } else { 0 })
}

/// Two cells of one grid row-major position are the same cell.
proof fn lemma_cell_index_injective(width: int, x1: int, y1: int, x2: int, y2: int)
    requires
        0 <= x1 < width,
        0 <= x2 < width,
        0 <= y1,
        0 <= y2,
        cell_index(width, x1, y1) == cell_index(width, x2, y2),
    ensures
        x1 == x2,
        y1 == y2,
{
    assert(y1 == y2) by (nonlinear_arith)
        requires
            0 <= x1 < width,
            0 <= x2 < width,
            0 <= y1,
            0 <= y2,
            x1 + y1 * width == x2 + y2 * width,
    ;
}

/// Every vertex of a grid lies in at least one triangle, so its normal weight is
/// positive and the average it takes is never a division by zero; no vertex is in
/// more than six triangles' worth of weight.
pub proof fn lemma_normal_weight_positive(width: int, height: int, x: int, y: int)
    requires
        valid_dims(width, height),
        0 <= x < width,
        0 <= y < height,
    ensures
        1 <= normal_weight(width, height, x, y) <= 6,
{
}

impl<T: Copy> Grid<T> {
    /// The normal weight of every vertex, in row-major order, summed quad by quad
    /// as the normals are: entry `x + y * width` is `normal_weight(width, height, x, y)`.
    pub fn normal_weights(&self) -> (r: Vec<u32>)
        requires
            self.wf(),
        ensures
            r@.len() == self.spec_width() * self.spec_height(),
            forall|x: int, y: int|
                0 <= x < self.spec_width() && 0 <= y < self.spec_height() ==> #[trigger] r@[cell_index(
                    self.spec_width() as int,
                    x,
                    y,
                )] == normal_weight(self.spec_width() as int, self.spec_height() as int, x, y),
    {
        let width = self.width();
        let height = self.height();
        let ghost w = width as int;
        let ghost h = height as int;
        let n: usize = width as usize * height as usize;
        let mut weights: Vec<u32> = Vec::with_capacity(n);
        let mut i: usize = 0;
        while i < n
            invariant
                i <= n,
                weights@.len() == i,
                forall|j: int| 0 <= j < i ==> weights@[j] == 0,
            decreases n - i,
        {
            weights.push(0);
            i = i + 1;
        }
        proof {
            assert forall|x: int, y: int| 0 <= x < w && 0 <= y < h implies #[trigger] weights@[cell_index(w, x, y)]
                == weight_before(w, h, x, y, 0, 0) by {
                lemma_cell_index_bounds(w, h, x, y);
            }
        }
        let mut qy: u32 = 0;
        while qy < height - 1
            invariant
                w == width,
                h == height,
                valid_dims(w, h),
                indexable(w, h),
                n == w * h,
                qy <= h - 1,
                weights@.len() == n,
                forall|x: int, y: int|
                    0 <= x < w && 0 <= y < h ==> #[trigger] weights@[cell_index(w, x, y)]
                        == weight_before(w, h, x, y, 0, qy as int),
            decreases height - qy,
        {
            let mut qx: u32 = 0;
            while qx < width - 1
                invariant
                    w == width,
                    h == height,
                    valid_dims(w, h),
                    indexable(w, h),
                    n == w * h,
                    qy < h - 1,
                    qx <= w - 1,
                    weights@.len() == n,
                    forall|x: int, y: int|
                        0 <= x < w && 0 <= y < h ==> #[trigger] weights@[cell_index(w, x, y)]
                            == weight_before(w, h, x, y, qx as int, qy as int),
                decreases width - qx,
            {
                proof {
                    lemma_cell_index_bounds(w, h, qx as int, qy as int);
                    lemma_cell_index_bounds(w, h, qx + 1, qy + 1);
                    lemma_cell_index_bounds(w, h, qx + 1, qy as int);
                    lemma_cell_index_bounds(w, h, qx as int, qy + 1);
                    assert(qy * w >= 0) by (nonlinear_arith)
                        requires
                            qy >= 0,
                            w >= 2,
                    ;
                }
                let ghost before = weights@;
                let i1: usize = qx as usize + qy as usize * width as usize;
                let i2: usize = i1 + width as usize;
                let i3: usize = i1 + 1;
                let i4: usize = i1 + width as usize + 1;
                proof {
                    assert(weights@[i1 as int] == weight_before(w, h, qx as int, qy as int, qx as int, qy as int));
                    assert(weights@[i2 as int] == weight_before(w, h, qx as int, qy + 1, qx as int, qy as int));
                    assert(weights@[i3 as int] == weight_before(w, h, qx + 1, qy as int, qx as int, qy as int));
                    assert(weights@[i4 as int] == weight_before(w, h, qx + 1, qy + 1, qx as int, qy as int));
                }
                let a = weights[i1];
                weights.set(i1, a + 1);
                let b = weights[i2];
                weights.set(i2, b + 2);
                let c = weights[i3];
                weights.set(i3, c + 2);
                let d = weights[i4];
                weights.set(i4, d + 1);
                proof {
                    assert forall|x: int, y: int| 0 <= x < w && 0 <= y < h implies #[trigger] weights@[cell_index(w, x, y)]
                        == weight_before(w, h, x, y, qx + 1, qy as int) by {
                        let v = cell_index(w, x, y);
                        lemma_cell_index_bounds(w, h, x, y);
                        if v == i1 {
                            lemma_cell_index_injective(w, x, y, qx as int, qy as int);
                        } else if v == i2 {
                            lemma_cell_index_injective(w, x, y, qx as int, qy + 1);
                        } else if v == i3 {
                            lemma_cell_index_injective(w, x, y, qx + 1, qy as int);
                        } else if v == i4 {
                            lemma_cell_index_injective(w, x, y, qx + 1, qy + 1);
                        } else {
                            assert(weights@[v] == before[v]);
                            if x == qx && y == qy {
                            } else if x == qx && y == qy + 1 {
                            } else if x == qx + 1 && y == qy {
                            } else if x == qx + 1 && y == qy + 1 {
                            } else {
                            }
                        }
                    }
                }
                qx = qx + 1;
            }
            qy = qy + 1;
        }
        weights
    }
}

} // verus!
