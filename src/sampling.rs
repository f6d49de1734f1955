use vstd::prelude::*;
use crate::grid::{Grid, GridError, indexable, valid_dims};

verus! {

/// The cells that hold the least and the greatest raw sample, by row-major position.
#[derive(Clone, Copy, Debug, PartialEq, Eq, Structural)]
pub struct SampleRange {
    pub min_index: usize,
    pub max_index: usize,
}

/// `i` is the first position of a least key.
pub open spec fn is_first_min(keys: Seq<u64>, i: int) -> bool {
    &&& 0 <= i < keys.len()
    &&& forall|j: int| 0 <= j < keys.len() ==> keys[i] <= #[trigger] keys[j]
    &&& forall|j: int| 0 <= j < i ==> keys[i] < #[trigger] keys[j]
}

/// `i` is the first position of a greatest key.
pub open spec fn is_first_max(keys: Seq<u64>, i: int) -> bool {
    &&& 0 <= i < keys.len()
    &&& forall|j: int| 0 <= j < keys.len() ==> #[trigger] keys[j] <= keys[i]
    &&& forall|j: int| 0 <= j < i ==> #[trigger] keys[j] < keys[i]
}

/// Every key is the same.
pub open spec fn all_equal(keys: Seq<u64>) -> bool {
    forall|i: int, j: int| 0 <= i < keys.len() && 0 <= j < keys.len() ==> keys[i] == keys[j]
}

/// Finds, in one pass, where the least and the greatest of the raw samples lie,
/// given each sample's order key (keys compare as the samples do). When every
/// sample is equal there is no range to rescale over, and the grid is refused
/// with `DegenerateNoiseRange`.
pub fn sample_range(keys: &[u64]) -> (r: Result<SampleRange, GridError>)
    requires
        keys@.len() >= 1,
    ensures
        r is Err <==> all_equal(keys@),
        r is Err ==> r->Err_0 == GridError::DegenerateNoiseRange,
        r matches Ok(s) ==> {
            &&& is_first_min(keys@, s.min_index as int)
            &&& is_first_max(keys@, s.max_index as int)
            &&& keys@[s.min_index as int] < keys@[s.max_index as int]
        },
{
    let mut lo: usize = 0;
    let mut hi: usize = 0;
    let mut i: usize = 1;
    while i < keys.len()
        invariant
            1 <= i <= keys@.len(),
            is_first_min(keys@.take(i as int), lo as int),
            is_first_max(keys@.take(i as int), hi as int),
        decreases keys@.len() - i,
    {
        if keys[i] < keys[lo] {
            lo = i;
        }
        if keys[i] > keys[hi] {
            hi = i;
        }
        proof {
            assert(keys@.take(i + 1).drop_last() =~= keys@.take(i as int));
        }
        i = i + 1;
    }
    proof {
        assert(keys@.take(i as int) =~= keys@);
    }
    if keys[lo] == keys[hi] {
        proof {
            assert forall|a: int, b: int| 0 <= a < keys@.len() && 0 <= b < keys@.len() implies keys@[a]
                == keys@[b] by {
                assert(keys@[lo as int] <= keys@[a] <= keys@[hi as int]);
                assert(keys@[lo as int] <= keys@[b] <= keys@[hi as int]);
            }
        }
        Err(GridError::DegenerateNoiseRange)
    } else {
        Ok(SampleRange { min_index: lo, max_index: hi })
    }
}

/// A key sequence has one first least and one first greatest position.
pub proof fn lemma_first_extremes_unique(keys: Seq<u64>, a: int, b: int)
    ensures
        is_first_min(keys, a) && is_first_min(keys, b) ==> a == b,
        is_first_max(keys, a) && is_first_max(keys, b) ==> a == b,
{
    if is_first_min(keys, a) && is_first_min(keys, b) && a != b {
        assert(keys[a] <= keys[b] && keys[b] <= keys[a]);
        if a < b {
            assert(keys[b] < keys[a]);
        } else {
            assert(keys[a] < keys[b]);
        }
    }
    if is_first_max(keys, a) && is_first_max(keys, b) && a != b {
        assert(keys[b] <= keys[a] && keys[a] <= keys[b]);
        if a < b {
            assert(keys[a] < keys[b]);
        } else {
            assert(keys[b] < keys[a]);
        }
    }
}

/// `out` is `raw` rescaled over its range: each value goes through `rescale`
/// together with the raw values at the first least and the first greatest key.
pub open spec fn rescaled_from<T, U, R: Fn(T, T, T) -> U>(
    out: Seq<U>,
    raw: Seq<T>,
    keys: Seq<u64>,
    rescale: R,
) -> bool {
    &&& out.len() == raw.len()
    &&& forall|lo: int, hi: int, i: int|
        #![trigger is_first_min(keys, lo), is_first_max(keys, hi), out[i]]
        is_first_min(keys, lo) && is_first_max(keys, hi) && 0 <= i < raw.len() ==> rescale.ensures(
            (raw[i], raw[lo], raw[hi]),
            out[i],
        )
}

impl<T: Copy> Grid<T> {
    /// Rescales the grid over the range of its values: `keys` gives, cell by cell,
    /// an order key of each value, and every value `v` becomes `rescale(v, min, max)`
    /// with `min` and `max` the values at the first least and first greatest key.
    /// A grid whose keys are all equal has no range and is refused.
    pub fn rescaled<U: Copy, R: Fn(T, T, T) -> U>(&self, keys: &[u64], rescale: R) -> (r: Result<
        Grid<U>,
        GridError,
    >)
        requires
            self.wf(),
            keys@.len() == self.cells().len(),
            forall|v: T, lo: T, hi: T| rescale.requires((v, lo, hi)),
        ensures
            r is Err <==> all_equal(keys@),
            r is Err ==> r->Err_0 == GridError::DegenerateNoiseRange,
            r matches Ok(g) ==> {
                &&& g.wf()
                &&& g.spec_width() == self.spec_width()
                &&& g.spec_height() == self.spec_height()
                &&& rescaled_from(g.cells(), self.cells(), keys@, rescale)
            },
    {
        proof {
            assert(self.spec_width() * self.spec_height() >= 4) by (nonlinear_arith)
                requires
                    self.spec_width() >= 2,
                    self.spec_height() >= 2,
            ;
        }
        let range = sample_range(keys)?;
        let lo: T = self.as_slice()[range.min_index];
        let hi: T = self.as_slice()[range.max_index];
        let out = self.map(|v: T| -> (u: U)
            ensures
                rescale.ensures((v, lo, hi), u),
            { rescale(v, lo, hi) });
        proof {
            assert forall|a: int, b: int, i: int|
                #![trigger is_first_min(keys@, a), is_first_max(keys@, b), out.cells()[i]]
                is_first_min(keys@, a) && is_first_max(keys@, b) && 0 <= i < self.cells().len() implies rescale.ensures(
                (self.cells()[i], self.cells()[a], self.cells()[b]),
                out.cells()[i],
            ) by {
                lemma_first_extremes_unique(keys@, a, range.min_index as int);
                lemma_first_extremes_unique(keys@, b, range.max_index as int);
            }
        }
        Ok(out)
    }
}

/// Samples a `width` by `height` grid and rescales it over its range.
///
/// Cell `(x, y)` is first `sample(x, y)`, row by row; `key` gives each sample an
/// order key; then every sample is rescaled as `Grid::rescaled` does. Sizes of one
/// cell or less on a side are refused, and so is a grid whose samples all have the
/// same key.
pub fn make_noise_grid<
    T: Copy,
    U: Copy,
    S: Fn(u32, u32) -> T,
    K: Fn(T) -> u64,
    R: Fn(T, T, T) -> U,
>(dimensions: (u32, u32), sample: S, key: K, rescale: R) -> (r: Result<Grid<U>, GridError>)
    requires
        indexable(dimensions.0 as int, dimensions.1 as int),
        forall|x: u32, y: u32| x < dimensions.0 && y < dimensions.1 ==> sample.requires((x, y)),
        forall|v: T| key.requires((v,)),
        forall|v: T, lo: T, hi: T| rescale.requires((v, lo, hi)),
    ensures
        !valid_dims(dimensions.0 as int, dimensions.1 as int) ==> r == Err::<Grid<U>, GridError>(
            GridError::InvalidDimensions,
        ),
        valid_dims(dimensions.0 as int, dimensions.1 as int) ==> exists|raw: Grid<T>, keys: Seq<u64>|
            {
                &&& raw.wf()
                &&& raw.spec_width() == dimensions.0
                &&& raw.spec_height() == dimensions.1
                &&& forall|x: u32, y: u32|
                    x < dimensions.0 && y < dimensions.1 ==> sample.ensures(
                        (x, y),
                        #[trigger] raw.cell(x as int, y as int),
                    )
                &&& keys.len() == raw.cells().len()
                &&& forall|i: int| 0 <= i < keys.len() ==> key.ensures((raw.cells()[i],), #[trigger] keys[i])
                &&& (r is Err <==> all_equal(keys))
                &&& (r is Err ==> r->Err_0 == GridError::DegenerateNoiseRange)
                &&& (r matches Ok(g) ==> {
                    &&& g.wf()
                    &&& g.spec_width() == dimensions.0
                    &&& g.spec_height() == dimensions.1
                    &&& rescaled_from(g.cells(), raw.cells(), keys, rescale)
                })
            },
{
    let (width, height) = dimensions;
    let raw = Grid::from_fn(width, height, sample)?;
    let keys = raw.map(key);
    let r = raw.rescaled(keys.as_slice(), rescale);
    proof {
        assert forall|i: int| 0 <= i < keys.cells().len() implies key.ensures(
            (raw.cells()[i],),
            #[trigger] keys.cells()[i],
        ) by {}
    }
    r
}

} // verus!
