//! A minimal two-dimensional grid addressed either linearly or by
//! coordinate pair, through one indexing trait.

use vstd::prelude::*;

verus! {

/// Every cell of `s` is a clone of the one element `d`.
pub open spec fn uniform_cells<T: Clone>(d: T, s: Seq<T>) -> bool {
    forall|i: int| 0 <= i < s.len() ==> #[trigger] cloned(d, s[i])
}

/// Fallible lookup by some index type. Each implementation says in
/// `spec_get` which cell an index reaches; `get` returns exactly that.
pub trait Index<I, T> {
    spec fn spec_get(&self, index: I) -> Option<T>;

    fn get(&self, index: I) -> (r: Option<&T>)
        ensures
            match r {
                Some(v) => self.spec_get(index) == Some(*v),
                None => self.spec_get(index) is None,
            },
    ;
}

#[derive(Debug)]
pub struct Grid2D<T> {
    width: usize,
    height: usize,
    data: Vec<T>,
}

impl<T> Grid2D<T> {
    pub closed spec fn spec_width(self) -> usize {
        self.width
    }

    pub closed spec fn spec_height(self) -> usize {
        self.height
    }

    pub closed spec fn spec_data(self) -> Seq<T> {
        self.data@
    }

    /// The empty grid.
    pub fn new() -> (g: Grid2D<T>)
        ensures
            g.spec_width() == 0,
            g.spec_height() == 0,
            g.spec_data().len() == 0,
    {
        Grid2D { width: 0, height: 0, data: Vec::new() }
    }

    pub fn width(&self) -> (w: usize)
        ensures
            w == self.spec_width(),
    {
        self.width
    }

    pub fn height(&self) -> (h: usize)
        ensures
            h == self.spec_height(),
    {
        self.height
    }
}

impl<T: Default + Clone> Grid2D<T> {
    /// A grid of the given shape whose cells are all clones of one default
    /// element of the type.
    pub fn with_size(width: usize, height: usize) -> (g: Grid2D<T>)
        requires
            width * height <= usize::MAX,
        ensures
            g.spec_width() == width,
            g.spec_height() == height,
            g.spec_data().len() == width * height,
            exists|d: T| #[trigger] uniform_cells(d, g.spec_data()),
    {
        let size: usize = width * height;
        let element: T = T::default();
        let g = Grid2D { width, height, data: vec![element; size] };
        proof {
            assert(uniform_cells(element, g.spec_data()));
        }
        g
    }
}

impl<T> Index<(usize, usize), T> for Grid2D<T> {
    /// A coordinate pair reaches the cell at `x + y * width` of the backing
    /// row-major storage — with no bound on `x` itself, so an overwide `x`
    /// aliases a cell of a later row, exactly as the linear index does.
    open spec fn spec_get(&self, index: (usize, usize)) -> Option<T> {
        if index.0 + index.1 * self.spec_width() < self.spec_data().len() {
            Some(self.spec_data()[index.0 + index.1 * self.spec_width()])
        } else {
            None
        }
    }

    fn get(&self, index: (usize, usize)) -> (r: Option<&T>) {
        let n = self.data.len();
        let row = index.1.checked_mul(self.width);
        let linear = match row {
            Some(row) => index.0.checked_add(row),
            None => None,
        };
        match linear {
            Some(i) => {
                proof {
                    assert(i == index.0 + index.1 * self.spec_width());
                }
                if i < n {
                    Some(&self.data[i])
                } else {
                    None
                }
            },
            None => {
                proof {
                    assert(index.0 + index.1 * self.spec_width() > usize::MAX >= n);
                }
                None
            },
        }
    }
}

impl<T> Index<usize, T> for Grid2D<T> {
    /// A linear index reaches the backing storage directly.
    open spec fn spec_get(&self, index: usize) -> Option<T> {
        if index < self.spec_data().len() {
            Some(self.spec_data()[index as int])
        } else {
            None
        }
    }

    fn get(&self, index: usize) -> (r: Option<&T>) {
        if index < self.data.len() {
            Some(&self.data[index])
        } else {
            None
        }
    }
}

impl<T> Default for Grid2D<T> {
    fn default() -> (g: Grid2D<T>)
        ensures
            g.spec_width() == 0,
            g.spec_height() == 0,
            g.spec_data().len() == 0,
    {
        Grid2D::new()
    }
}

} // verus!
