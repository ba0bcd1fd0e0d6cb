//! A dense two-dimensional grid stored row-major in one vector.

use vstd::prelude::*;

verus! {

#[derive(Debug)]
pub struct Grid<T: Clone> {
    columns: u32,
    rows: u32,
    data: Vec<T>,
}

impl<T: Clone> Grid<T> {
    pub closed spec fn spec_columns(self) -> u32 {
        self.columns
    }

    pub closed spec fn spec_rows(self) -> u32 {
        self.rows
    }

    pub closed spec fn spec_data(self) -> Seq<T> {
        self.data@
    }

    /// The storage holds exactly one cell per coordinate, and the cell
    /// count fits the 32-bit size the grid reports.
    pub open spec fn inv(self) -> bool {
        &&& self.spec_data().len() == self.spec_columns() * self.spec_rows()
        &&& self.spec_columns() * self.spec_rows() <= u32::MAX
    }

    /// A grid of the given shape with every cell cloned from one element.
    pub fn filled(element: T, columns: u32, rows: u32) -> (g: Grid<T>)
        requires
            columns * rows <= u32::MAX,
        ensures
            g.inv(),
            g.spec_columns() == columns,
            g.spec_rows() == rows,
            g.spec_data().len() == columns * rows,
            forall|i: int|
                0 <= i < g.spec_data().len() ==> cloned(element, #[trigger] g.spec_data()[i]),
    {
        let size: usize = (columns as usize) * (rows as usize);
        Grid { columns, rows, data: vec![element; size] }
    }

    /// A grid of the given shape whose cells are cloned from a slice laid
    /// out row-major.
    pub fn from_slice(slice: &[T], columns: u32, rows: u32) -> (g: Grid<T>)
        requires
            slice@.len() == columns * rows,
            columns * rows <= u32::MAX,
        ensures
            g.inv(),
            g.spec_columns() == columns,
            g.spec_rows() == rows,
            g.spec_data().len() == columns * rows,
            forall|i: int|
                0 <= i < g.spec_data().len() ==> cloned(slice@[i], #[trigger] g.spec_data()[i]),
    {
        let mut data: Vec<T> = Vec::new();
        let mut i: usize = 0;
        while i < slice.len()
            invariant
                i <= slice@.len(),
                data@.len() == i,
                forall|k: int| 0 <= k < i ==> cloned(slice@[k], #[trigger] data@[k]),
            decreases slice@.len() - i,
        {
            data.push(slice[i].clone());
            i = i + 1;
        }
        Grid { columns, rows, data }
    }

    pub fn columns(&self) -> (c: u32)
        ensures
            c == self.spec_columns(),
    {
        self.columns
    }

    pub fn rows(&self) -> (r: u32)
        ensures
            r == self.spec_rows(),
    {
        self.rows
    }

    pub fn size(&self) -> (s: u32)
        requires
            self.inv(),
        ensures
            s == self.spec_columns() * self.spec_rows(),
    {
        self.columns * self.rows
    }

    /// One-dimensional access; `None` past the end.
    pub fn get(&self, index: usize) -> (r: Option<&T>)
        ensures
            match r {
                Some(v) => index < self.spec_data().len() && *v == self.spec_data()[index as int],
                None => index >= self.spec_data().len(),
            },
    {
        if index < self.data.len() {
            Some(&self.data[index])
        } else {
            None
        }
    }

    /// Exclusive one-dimensional access to a cell known to exist.
    pub fn get_mut(&mut self, index: usize) -> (v: &mut T)
        requires
            index < old(self).spec_data().len(),
        ensures
            *v == old(self).spec_data()[index as int],
            final(self).spec_data() == old(self).spec_data().update(index as int, *final(v)),
            final(self).spec_columns() == old(self).spec_columns(),
            final(self).spec_rows() == old(self).spec_rows(),
            old(self).inv() ==> final(self).inv(),
    {
        &mut self.data[index]
    }

    /// Two-dimensional access: `None` on a negative or out-of-bounds
    /// coordinate, otherwise the cell at row `y`, column `x`.
    pub fn get_at(&self, x: i32, y: i32) -> (r: Option<&T>)
        requires
            self.inv(),
        ensures
            ({
                let inside = 0 <= x < self.spec_columns() && 0 <= y < self.spec_rows();
                match r {
                    Some(v) => inside && *v == self.spec_data()[x + y * self.spec_columns()],
                    None => !inside,
                }
            }),
    {
        if x < 0 || y < 0 {
            return None;
        }
        let x = x as u32;
        let y = y as u32;
        if x >= self.columns || y >= self.rows {
            return None;
        }
        proof {
            assert(x + y * self.spec_columns() < self.spec_columns() * self.spec_rows())
                by (nonlinear_arith)
                requires
                    x < self.spec_columns(),
                    y < self.spec_rows(),
            ;
        }
        let index = (x as usize) + (y as usize) * (self.columns as usize);
        Some(&self.data[index])
    }

    pub fn data(&self) -> (r: &[T])
        ensures
            r@ == self.spec_data(),
    {
        self.data.as_slice()
    }

    pub fn data_mut(&mut self) -> (r: &mut Vec<T>)
        ensures
            r@ == old(self).spec_data(),
            final(self).spec_data() == final(r)@,
            final(self).spec_columns() == old(self).spec_columns(),
            final(self).spec_rows() == old(self).spec_rows(),
    {
        &mut self.data
    }
}

} // verus!
