use vstd::prelude::*;

verus! {

/// A rectangular matrix of integers, stored row by row.
pub struct Matrix {
    data: Vec<Vec<i64>>,
}

pub open spec fn rows_view(rows: Seq<Vec<i64>>) -> Seq<Seq<i64>> {
    rows.map_values(|row: Vec<i64>| row@)
}

/// A row of `width` entries that are all zero but for a one at `one_at`, if
/// `one_at` lies in the row.
fn unit_row(width: usize, one_at: usize) -> (r: Vec<i64>)
    ensures
        r@.len() == width,
        forall|j: int| 0 <= j < width ==> r@[j] == if j == one_at { 1i64 } else { 0i64 },
{
    let mut r: Vec<i64> = Vec::new();
    let mut j: usize = 0;
    while j < width
        invariant
            j <= width,
            r@.len() == j,
            forall|m: int| 0 <= m < j ==> r@[m] == if m == one_at { 1i64 } else { 0i64 },
        decreases width - j,
    {
        if j == one_at {
            r.push(1);
        } else {
            r.push(0);
        }
        j = j + 1;
    }
    r
}

impl Matrix {
    pub closed spec fn view(&self) -> Seq<Seq<i64>> {
        rows_view(self.data@)
    }

    /// At least one row, at least one column, and all rows of one length.
    pub open spec fn well_formed(&self) -> bool {
        &&& self@.len() > 0
        &&& self@[0].len() > 0
        &&& forall|i: int| 0 <= i < self@.len() ==> (#[trigger] self@[i]).len() == self@[0].len()
    }

    /// A `height` by `width` matrix of zeros; `None` when either size is zero.
    pub fn new(height: usize, width: usize) -> (r: Option<Self>)
        ensures
            r is None <==> (height == 0 || width == 0),
            r matches Some(m) ==> {
                &&& m.well_formed()
                &&& m@.len() == height
                &&& forall|i: int| 0 <= i < height ==> (#[trigger] m@[i]).len() == width
                &&& forall|i: int, j: int|
                    0 <= i < height && 0 <= j < width ==> (#[trigger] m@[i][j]) == 0
            },
    {
        if height == 0 || width == 0 {
            return None;
        }
        let mut data: Vec<Vec<i64>> = Vec::new();
        let mut i: usize = 0;
        while i < height
            invariant
                i <= height,
                data@.len() == i,
                forall|m: int| 0 <= m < i ==> (#[trigger] rows_view(data@)[m]).len() == width,
                forall|m: int, j: int|
                    0 <= m < i && 0 <= j < width ==> (#[trigger] rows_view(data@)[m][j]) == 0,
            decreases height - i,
        {
            let row = unit_row(width, width);
            let ghost old_data = data@;
            let ghost row_view = row@;
            data.push(row);
            assert(rows_view(data@) =~= rows_view(old_data).push(row_view));
            i = i + 1;
        }
        Some(Matrix { data })
    }

    /// The `matrix_size` by `matrix_size` identity matrix; `None` when the
    /// size is zero.
    pub fn new_identity_matrix(matrix_size: usize) -> (r: Option<Self>)
        ensures
            r is None <==> matrix_size == 0,
            r matches Some(m) ==> {
                &&& m.well_formed()
                &&& m@.len() == matrix_size
                &&& forall|i: int| 0 <= i < matrix_size ==> (#[trigger] m@[i]).len() == matrix_size
                &&& forall|i: int, j: int|
                    0 <= i < matrix_size && 0 <= j < matrix_size ==> (#[trigger] m@[i][j]) == if i
                        == j {
                        1i64
                    } else {
                        0i64
                    }
            },
    {
        if matrix_size == 0 {
            return None;
        }
        let mut data: Vec<Vec<i64>> = Vec::new();
        let mut i: usize = 0;
        while i < matrix_size
            invariant
                i <= matrix_size,
                data@.len() == i,
                forall|m: int|
                    0 <= m < i ==> (#[trigger] rows_view(data@)[m]).len() == matrix_size,
                forall|m: int, j: int|
                    0 <= m < i && 0 <= j < matrix_size ==> (#[trigger] rows_view(data@)[m][j])
                        == if m == j {
                        1i64
                    } else {
                        0i64
                    },
            decreases matrix_size - i,
        {
            let row = unit_row(matrix_size, i);
            let ghost old_data = data@;
            let ghost row_view = row@;
            data.push(row);
            assert(rows_view(data@) =~= rows_view(old_data).push(row_view));
            i = i + 1;
        }
        Some(Matrix { data })
    }

    /// The transpose: entry `(i, j)` of the result is entry `(j, i)` of `self`.
    pub fn transpose(&self) -> (r: Matrix)
        requires
            self.well_formed(),
        ensures
            r.well_formed(),
            r@.len() == self@[0].len(),
            forall|i: int| 0 <= i < r@.len() ==> (#[trigger] r@[i]).len() == self@.len(),
            forall|i: int, j: int|
                0 <= i < r@.len() && 0 <= j < self@.len() ==> (#[trigger] r@[i][j]) == self@[j][i],
    {
        let height = self.data.len();
        let width = self.data[0].len();
        assert(self@[0] == self.data@[0]@);
        let mut data: Vec<Vec<i64>> = Vec::new();
        let mut i: usize = 0;
        while i < width
            invariant
                self.well_formed(),
                height == self@.len(),
                width == self@[0].len(),
                i <= width,
                data@.len() == i,
                forall|m: int| 0 <= m < i ==> (#[trigger] rows_view(data@)[m]).len() == height,
                forall|m: int, j: int|
                    0 <= m < i && 0 <= j < height ==> (#[trigger] rows_view(data@)[m][j])
                        == self@[j][m],
            decreases width - i,
        {
            let ghost old_data = data@;
            let mut row: Vec<i64> = Vec::new();
            let mut j: usize = 0;
            while j < height
                invariant
                    self.well_formed(),
                    height == self@.len(),
                    width == self@[0].len(),
                    i < width,
                    j <= height,
                    row@.len() == j,
                    forall|m: int| 0 <= m < j ==> row@[m] == self@[m][i as int],
                decreases height - j,
            {
                assert(self@[j as int] == self.data@[j as int]@);
                assert(self@[j as int].len() == width);
                row.push(self.data[j][i]);
                j = j + 1;
            }
            let ghost row_view = row@;
            data.push(row);
            assert(rows_view(data@) =~= rows_view(old_data).push(row_view));
            i = i + 1;
        }
        Matrix { data }
    }

    /// The rows of the matrix.
    pub fn rows(&self) -> (r: &Vec<Vec<i64>>)
        ensures
            rows_view(r@) == self@,
    {
        &self.data
    }
}

} // verus!
