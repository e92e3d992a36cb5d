use vstd::prelude::*;

use crate::error::AoError;
use crate::fixed::MAX_DIM;

verus! {

/// One detector exposure: a fixed `n_rows x n_cols` grid of unsigned
/// intensity samples, stored row by row.  Immutable once built; acquisition
/// code hands consumers an independent copy.
#[derive(Debug)]
pub struct Frame {
    pub n_rows: usize,
    pub n_cols: usize,
    pub data: Vec<Vec<u16>>,
}

impl Frame {
    /// The grid as a mathematical sequence of rows.
    pub open spec fn view(&self) -> Seq<Seq<u16>> {
        Seq::new(self.data@.len(), |r: int| self.data@[r]@)
    }

    /// Shape soundness: `data` really is an `n_rows x n_cols` grid and both
    /// sides are within the supported detector size.
    pub open spec fn wf(&self) -> bool {
        &&& self.n_rows <= MAX_DIM
        &&& self.n_cols <= MAX_DIM
        &&& self.data.len() == self.n_rows
        &&& forall|r: int| 0 <= r < self.n_rows ==> (#[trigger] self.data[r]).len() == self.n_cols
    }

    /// An all-zero frame of the given shape; rejects an oversized detector.
    pub fn new(n_rows: usize, n_cols: usize) -> (result: Result<Frame, AoError>)
        ensures
            result is Ok <==> n_rows <= MAX_DIM && n_cols <= MAX_DIM,
            result matches Ok(f) ==> {
                &&& f.wf()
                &&& f.n_rows == n_rows
                &&& f.n_cols == n_cols
                &&& forall|r: int, c: int|
                    0 <= r < n_rows && 0 <= c < n_cols ==> f@[r][c] == 0u16
            },
            result matches Err(e) ==> e == AoError::ConfigurationError,
    {
        if n_rows > MAX_DIM || n_cols > MAX_DIM {
            return Err(AoError::ConfigurationError);
        }
        let mut data: Vec<Vec<u16>> = Vec::new();
        for r in 0..n_rows
            invariant
                data.len() == r,
                forall|i: int| 0 <= i < r ==> (#[trigger] data[i]).len() == n_cols,
                forall|i: int, c: int|
                    0 <= i < r && 0 <= c < n_cols ==> #[trigger] data[i]@[c] == 0u16,
        {
            let mut row: Vec<u16> = Vec::new();
            for c in 0..n_cols
                invariant
                    row.len() == c,
                    forall|j: int| 0 <= j < c ==> row[j] == 0u16,
            {
                row.push(0);
            }
            data.push(row);
        }
        Ok(Frame { n_rows, n_cols, data })
    }

    /// A frame built from explicit rows; rejects a ragged or oversized grid.
    pub fn from_rows(data: Vec<Vec<u16>>) -> (result: Result<Frame, AoError>)
        ensures
            result is Ok <==> {
                &&& data.len() <= MAX_DIM
                &&& data.len() > 0 ==> data[0].len() <= MAX_DIM
                &&& forall|r: int| 0 <= r < data.len() ==> (#[trigger] data[r]).len() == data[0].len()
            },
            result matches Ok(f) ==> {
                &&& f.wf()
                &&& f.n_rows == data.len()
                &&& f.n_cols == (if data.len() > 0 { data[0].len() as int } else { 0int })
                &&& f.data == data
            },
            result matches Err(e) ==> e == AoError::ConfigurationError,
    {
        if data.len() > MAX_DIM {
            return Err(AoError::ConfigurationError);
        }
        if data.len() == 0 {
            return Ok(Frame { n_rows: 0, n_cols: 0, data });
        }
        let n_cols = data[0].len();
        if n_cols > MAX_DIM {
            return Err(AoError::ConfigurationError);
        }
        for r in 0..data.len()
            invariant
                n_cols == data[0].len(),
                forall|i: int| 0 <= i < r ==> (#[trigger] data[i]).len() == n_cols,
        {
            if data[r].len() != n_cols {
                return Err(AoError::ConfigurationError);
            }
        }
        let n_rows = data.len();
        Ok(Frame { n_rows, n_cols, data })
    }

    /// The sample at row `r`, column `c`.
    pub fn get(&self, r: usize, c: usize) -> (v: u16)
        requires
            self.wf(),
            r < self.n_rows,
            c < self.n_cols,
        ensures
            v == self@[r as int][c as int],
    {
        self.data[r][c]
    }
}

} // verus!
